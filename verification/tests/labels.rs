use mugen::ml::{label_encode, target_label, LabelEncoder};

#[test]
fn codes_follow_first_appearance() {
    let mut map = LabelEncoder::new();
    assert_eq!(label_encode("release-keys", &mut map), 0);
    assert_eq!(label_encode("test-keys", &mut map), 1);
    assert_eq!(label_encode("release-keys", &mut map), 0);
    assert_eq!(label_encode("dev-keys", &mut map), 2);
    assert_eq!(map.len(), 3);
}

#[test]
fn empty_value_is_unknown() {
    let mut map = LabelEncoder::new();
    assert_eq!(label_encode("", &mut map), 0);
    assert_eq!(label_encode("unknown", &mut map), 0);
    assert_eq!(label_encode("x", &mut map), 1);
    assert_eq!(label_encode("", &mut map), 0);
    assert_eq!(map.len(), 2);
}

#[test]
fn repeated_encoding_is_stable() {
    let mut map = LabelEncoder::new();
    let first = label_encode("goldfish", &mut map);
    let second = label_encode("goldfish", &mut map);
    assert_eq!(first, second);
    assert_eq!(map.len(), 1);
}

#[test]
fn targets() {
    assert_eq!(target_label("Sim"), 1);
    assert_eq!(target_label("Não"), 0);
    assert_eq!(target_label("sim"), 0);
}
