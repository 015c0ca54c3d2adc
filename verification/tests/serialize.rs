use estree::sequences::SequenceSerializer;
use estree::serializer::{CompactSerializer, PrettySerializer};
use estree::structs::StructSerializer;

fn compact_struct(none: &[&str], one: &[&str], two: [&str; 2]) -> String {
    let mut serializer = CompactSerializer::new();
    let mut state = serializer.serialize_struct();
    state.serialize_field("none", &none);
    state.serialize_field("one", &one);
    state.serialize_field("two", &two);
    state.end();
    String::from_utf8(serializer.into_bytes()).unwrap()
}

fn pretty_struct(none: &[&str], one: &[&str], two: [&str; 2]) -> String {
    let mut serializer = PrettySerializer::new();
    let mut state = serializer.serialize_struct();
    state.serialize_field("none", &none);
    state.serialize_field("one", &one);
    state.serialize_field("two", &two);
    state.end();
    String::from_utf8(serializer.into_bytes()).unwrap()
}

#[test]
fn serialize_sequence() {
    let none: &[&str] = &[];
    let one: &[&str] = &["one"];
    let two: [&str; 2] = ["two one", "two two"];

    let s = compact_struct(none, one, two);
    assert_eq!(&s, r#"{"none":[],"one":["one"],"two":["two one","two two"]}"#);

    let s = pretty_struct(none, one, two);
    assert_eq!(
        &s,
        r#"{
  "none": [],
  "one": [
    "one"
  ],
  "two": [
    "two one",
    "two two"
  ]
}"#
    );
}

#[test]
fn empty_containers_stay_inline() {
    let mut serializer = CompactSerializer::new();
    let seq = serializer.serialize_sequence();
    seq.end();
    assert_eq!(String::from_utf8(serializer.into_bytes()).unwrap(), "[]");

    let mut serializer = PrettySerializer::new();
    let seq = serializer.serialize_sequence();
    seq.end();
    assert_eq!(String::from_utf8(serializer.into_bytes()).unwrap(), "[]");

    let mut serializer = CompactSerializer::new();
    let st = serializer.serialize_struct();
    st.end();
    assert_eq!(String::from_utf8(serializer.into_bytes()).unwrap(), "{}");

    let mut serializer = PrettySerializer::new();
    let st = serializer.serialize_struct();
    st.end();
    assert_eq!(String::from_utf8(serializer.into_bytes()).unwrap(), "{}");
}

#[test]
fn sequence_brackets_and_commas() {
    for n in 0..5usize {
        let values: Vec<&str> = vec!["v"; n];
        let mut serializer = CompactSerializer::new();
        let mut seq = serializer.serialize_sequence();
        for v in &values {
            seq.serialize_element(v);
        }
        seq.end();
        let s = String::from_utf8(serializer.into_bytes()).unwrap();
        assert!(s.starts_with('['));
        assert!(s.ends_with(']'));
        let commas = s.chars().filter(|c| *c == ',').count();
        let expected = if n == 0 { 0 } else { n - 1 };
        assert_eq!(commas, expected);
    }
}

#[test]
fn field_order_is_call_order() {
    let mut serializer = CompactSerializer::new();
    let mut state = serializer.serialize_struct();
    state.serialize_field("zebra", &"z");
    state.serialize_field("apple", &"a");
    state.serialize_field("mango", &"m");
    state.end();
    let s = String::from_utf8(serializer.into_bytes()).unwrap();
    assert_eq!(&s, r#"{"zebra":"z","apple":"a","mango":"m"}"#);
}

#[test]
fn booleans_and_vectors() {
    let mut serializer = CompactSerializer::new();
    let mut state = serializer.serialize_struct();
    state.serialize_field("flags", &vec![true, false]);
    state.end();
    let s = String::from_utf8(serializer.into_bytes()).unwrap();
    assert_eq!(&s, r#"{"flags":[true,false]}"#);
}

#[test]
fn deep_nesting_keeps_sibling_indentation() {
    // A deep branch followed by a shallow sibling: the sibling's
    // indentation must match its own level, not the deep branch's.
    let deep: &[&[&[&str]]] = &[&[&["x"]]];
    let flat: &[&str] = &["y"];

    let mut serializer = PrettySerializer::new();
    let mut state = serializer.serialize_struct();
    state.serialize_field("deep", &deep);
    state.serialize_field("flat", &flat);
    state.end();
    let s = String::from_utf8(serializer.into_bytes()).unwrap();
    assert_eq!(
        &s,
        r#"{
  "deep": [
    [
      [
        "x"
      ]
    ]
  ],
  "flat": [
    "y"
  ]
}"#
    );
}

#[test]
fn deeply_nested_sequences_round_trip() {
    let inner: &[&str] = &["a", "b"];
    let mid: &[&[&str]] = &[inner, &[]];
    let outer: &[&[&[&str]]] = &[mid];

    let mut serializer = CompactSerializer::new();
    let mut seq = serializer.serialize_sequence();
    seq.serialize_element(&outer);
    seq.end();
    let compact = String::from_utf8(serializer.into_bytes()).unwrap();

    let mut serializer = PrettySerializer::new();
    let mut seq = serializer.serialize_sequence();
    seq.serialize_element(&outer);
    seq.end();
    let pretty = String::from_utf8(serializer.into_bytes()).unwrap();

    assert_eq!(&compact, r#"[[[["a","b"],[]]]]"#);
    let v1: serde_json::Value = serde_json::from_str(&compact).unwrap();
    let v2: serde_json::Value = serde_json::from_str(&pretty).unwrap();
    assert_eq!(v1, v2);
    assert_eq!(v1[0][0][0][0], serde_json::Value::String("a".to_string()));
}

#[test]
fn compact_and_pretty_parse_to_the_same_tree() {
    let none: &[&str] = &[];
    let one: &[&str] = &["one"];
    let two: [&str; 2] = ["two one", "two two"];

    let compact = compact_struct(none, one, two);
    let pretty = pretty_struct(none, one, two);

    let v1: serde_json::Value = serde_json::from_str(&compact).unwrap();
    let v2: serde_json::Value = serde_json::from_str(&pretty).unwrap();
    assert_eq!(v1, v2);
    assert_eq!(v1["two"][1], serde_json::Value::String("two two".to_string()));
}

#[test]
fn pretty_indentation_steps_by_one_unit() {
    let inner: &[&str] = &["a"];
    let outer: &[&[&str]] = &[inner];

    let mut serializer = PrettySerializer::new();
    let mut seq = serializer.serialize_sequence();
    seq.serialize_element(&outer);
    seq.end();
    let s = String::from_utf8(serializer.into_bytes()).unwrap();
    let lines: Vec<&str> = s.lines().collect();
    assert_eq!(lines, vec!["[", "  [", "    [", "      \"a\"", "    ]", "  ]", "]"]);
}

#[test]
fn sequence_builder_direct_use() {
    let mut serializer = CompactSerializer::new();
    let mut seq = estree::sequences::ESTreeSequenceSerializer::new(&mut serializer);
    seq.serialize_element(&"a");
    seq.serialize_element(&"b");
    seq.end();
    assert_eq!(String::from_utf8(serializer.into_bytes()).unwrap(), r#"["a","b"]"#);
}

#[test]
fn repeated_field_names_are_kept_in_order() {
    let mut serializer = CompactSerializer::new();
    let mut state = serializer.serialize_struct();
    state.serialize_field("k", &"first");
    state.serialize_field("k", &"second");
    state.end();
    let s = String::from_utf8(serializer.into_bytes()).unwrap();
    assert_eq!(&s, r#"{"k":"first","k":"second"}"#);
}
