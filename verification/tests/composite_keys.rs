//! Composite keys and their ranges.

use fabric_shim::composite_key::validate_composite_component;
use fabric_shim::text_map::{standing, Standing, TextMap};
use fabric_shim::{create_composite_key, split_composite_key};

#[test]
fn keys_are_delimited_by_the_null_character() {
    assert_eq!(create_composite_key("Asset", &[]).unwrap(), "\u{0}Asset\u{0}");
    assert_eq!(
        create_composite_key("Asset", &["blue", "asset1"]).unwrap(),
        "\u{0}Asset\u{0}blue\u{0}asset1\u{0}"
    );
}

#[test]
fn created_keys_split_back() {
    let cases: Vec<(&str, Vec<&str>)> = vec![
        ("a", vec![]),
        ("Asset", vec!["blue", "asset1"]),
        ("é", vec!["\u{1}", "\u{10FFFE}", " ", "\n"]),
    ];
    for (object_type, attributes) in cases {
        let key = create_composite_key(object_type, &attributes).unwrap();
        let (t, a) = split_composite_key(&key).unwrap();
        assert_eq!(t, object_type);
        assert_eq!(a, attributes);
    }
}

#[test]
fn bad_components_are_refused_with_the_reason() {
    assert_eq!(
        create_composite_key("", &["a"]).unwrap_err().message(),
        "invalid argument: composite key component must not be empty"
    );
    assert_eq!(
        create_composite_key("bad\u{0}type", &[]).unwrap_err().message(),
        "invalid argument: composite key component \"bad\\0type\" contains U+0000 or U+10FFFF"
    );
    assert_eq!(
        create_composite_key("Asset", &["ok", "bad\u{10FFFF}", ""]).unwrap_err().message(),
        "invalid argument: composite key component \"bad\\u{10ffff}\" contains U+0000 or U+10FFFF"
    );
    assert!(validate_composite_component("fine").is_ok());
    assert!(validate_composite_component("").is_err());
}

#[test]
fn other_texts_split_as_far_as_they_go() {
    assert_eq!(
        split_composite_key("plain").unwrap_err().message(),
        "invalid argument: not a composite key"
    );
    assert_eq!(
        split_composite_key("").unwrap_err().message(),
        "invalid argument: not a composite key"
    );
    assert_eq!(
        split_composite_key("\u{0}\u{0}\u{0}").unwrap_err().message(),
        "invalid argument: composite key has no object type"
    );
    // Empty pieces are passed over, and the last delimiter may be missing.
    assert_eq!(
        split_composite_key("\u{0}\u{0}a\u{0}\u{0}b").unwrap(),
        ("a".to_string(), vec!["b".to_string()])
    );
}

#[test]
fn partial_ranges_hold_exactly_the_keys_that_extend_them() {
    let prefix = create_composite_key("Asset", &["blue"]).unwrap();
    let end = format!("{prefix}\u{10FFFF}");
    let inside: [&[&str]; 4] =
        [&["blue"], &["blue", "a"], &["blue", "\u{10FFFE}"], &["blue", "a", "b"]];
    let outside: [&[&str]; 4] = [&["blu"], &["blue2"], &["red"], &[]];
    for attributes in inside {
        let key = create_composite_key("Asset", attributes).unwrap();
        assert!(prefix <= key && key < end);
        assert!(prefix.as_bytes() <= key.as_bytes() && key.as_bytes() < end.as_bytes());
        assert_ne!(standing(&key, &prefix), Standing::Before);
        assert_eq!(standing(&key, &end), Standing::Before);
    }
    for attributes in outside {
        let key = create_composite_key("Asset", attributes).unwrap();
        assert!(!(prefix <= key && key < end));
    }
    let key = create_composite_key("Assets", &["blue"]).unwrap();
    assert!(!(prefix <= key && key < end));
}

#[test]
fn text_stands_in_the_order_of_its_bytes() {
    let texts = [
        "", "a", "ab", "b", "\u{7F}", "\u{80}", "é", "\u{7FF}", "\u{800}", "\u{D7FF}", "\u{E000}",
        "\u{FFFF}", "\u{10000}", "\u{10FFFF}",
    ];
    for a in texts {
        for b in texts {
            let expected = if a.as_bytes() < b.as_bytes() {
                Standing::Before
            } else if a.as_bytes() == b.as_bytes() {
                Standing::Same
            } else {
                Standing::Behind
            };
            assert_eq!(standing(a, b), expected);
        }
    }
}

#[test]
fn text_maps_stand_in_order() {
    let mut map = TextMap::new();
    for (key, value) in [("b", 1), ("a", 2), ("c", 3), ("b", 4)] {
        map.insert(key.to_string(), value);
    }
    assert_eq!(map.len(), 3);
    assert!(!map.is_empty());
    assert_eq!(map.get("b"), Some(&4));
    assert_eq!(map.get("d"), None);
    assert!(map.contains_key("a"));
    assert_eq!((map.key_at(0), map.value_at(0)), ("a", &2));
    let copy = map.clone();
    let pairs = vec![("a".to_string(), 2), ("b".to_string(), 4), ("c".to_string(), 3)];
    assert_eq!(copy.into_pairs(), pairs);
    assert_eq!(map.into_pairs(), pairs);
}
