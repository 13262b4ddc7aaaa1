use folco_core::manifest::{encode_manifest, parse_manifest, CacheManifest, CachedIconInfo};

#[test]
fn encode_produces_exact_json() {
    let manifest = CacheManifest {
        version: 1,
        icon_count: 1,
        icons: vec![CachedIconInfo { size: 16, index: 0, path: "/c/a.png".to_string() }],
    };
    let text = encode_manifest(&manifest);
    assert_eq!(
        text,
        "{\"version\":1,\"icon_count\":1,\"icons\":[{\"size\":16,\"index\":0,\"path\":\"/c/a.png\"}]}"
    );
}

#[test]
fn encode_escapes_quotes_and_backslashes() {
    let manifest = CacheManifest {
        version: 1,
        icon_count: 1,
        icons: vec![
            CachedIconInfo { size: 32, index: 0, path: "C:\\cache\\\"odd\".png".to_string() },
        ],
    };
    let text = encode_manifest(&manifest);
    assert!(text.contains("C:\\\\cache\\\\\\\"odd\\\".png"));
    let parsed = parse_manifest(&text).unwrap();
    assert_eq!(parsed.icons[0].path, "C:\\cache\\\"odd\".png");
}

#[test]
fn manifest_round_trips_through_its_encoding() {
    let manifest = CacheManifest {
        version: 7,
        icon_count: 3,
        icons: vec![
            CachedIconInfo { size: 16, index: 0, path: "/c/folder_icon_16_0.png".to_string() },
            CachedIconInfo { size: 32, index: 1, path: "/c/folder_icon_32_1.png".to_string() },
            CachedIconInfo { size: 256, index: 2, path: "/c/folder_icon_256_2.png".to_string() },
        ],
    };
    let text = encode_manifest(&manifest);
    let parsed = parse_manifest(&text).unwrap();
    assert_eq!(parsed.version, 7);
    assert_eq!(parsed.icon_count, 3);
    assert_eq!(parsed.icons.len(), 3);
    for (a, b) in manifest.icons.iter().zip(parsed.icons.iter()) {
        assert_eq!(a.size, b.size);
        assert_eq!(a.index, b.index);
        assert_eq!(a.path, b.path);
    }
}

#[test]
fn empty_icon_list_is_valid() {
    let manifest = CacheManifest { version: 1, icon_count: 0, icons: vec![] };
    let text = encode_manifest(&manifest);
    assert_eq!(text, "{\"version\":1,\"icon_count\":0,\"icons\":[]}");
    let parsed = parse_manifest(&text).unwrap();
    assert_eq!(parsed.icon_count, 0);
    assert!(parsed.icons.is_empty());
}

#[test]
fn count_mismatch_is_rejected() {
    let text = "{\"version\":1,\"icon_count\":2,\"icons\":[{\"size\":16,\"index\":0,\"path\":\"/a\"}]}";
    assert!(parse_manifest(text).is_none());
}

#[test]
fn malformed_documents_are_rejected() {
    assert!(parse_manifest("").is_none());
    assert!(parse_manifest("{}").is_none());
    assert!(parse_manifest("{\"version\":1}").is_none());
    assert!(parse_manifest("{\"version\":01,\"icon_count\":0,\"icons\":[]}").is_none());
    assert!(parse_manifest("{\"version\":1,\"icon_count\":0,\"icons\":[]} ").is_none());
    assert!(parse_manifest("{\"version\":1,\"icon_count\":0,\"icons\":[]").is_none());
}
