use best_effort_de::bucket::UnknownBucket;
use best_effort_de::merge::DeserializeBestEffortTypes;
use best_effort_de::record::{
    decode_keyed, decode_positional, decode_stream, merge_value, zero_value, DecodeError, Entry, FieldValue,
    RecordBuilder,
};
use best_effort_de::roots::{parse_file_working, parse_file_working_manual_impl, root_schema};
use best_effort_de::schema::{BindingError, FieldDescriptor, FieldSlot, MergeKind, Schema};
use best_effort_de::strict::{parse_file_now_working, StrictError};

fn entry(key: &str, value: &str) -> Entry {
    Entry { key: key.to_string(), value: Some(value.to_string()) }
}

fn broken(key: &str) -> Entry {
    Entry { key: key.to_string(), value: None }
}

fn field(name: &str, aliases: &[&str], kind: MergeKind) -> FieldDescriptor {
    FieldDescriptor { name: name.to_string(), aliases: aliases.iter().map(|a| a.to_string()).collect(), kind }
}

fn strings(items: &[&str]) -> Vec<String> {
    items.iter().map(|s| s.to_string()).collect()
}

fn list(v: &FieldValue) -> Vec<String> {
    match v {
        FieldValue::List(l) => l.clone(),
        other => panic!("not a list: {:?}", other),
    }
}

fn scalar(v: &FieldValue) -> String {
    match v {
        FieldValue::Scalar(s) => s.clone(),
        other => panic!("not a scalar: {:?}", other),
    }
}

fn mixed_schema() -> Schema {
    Schema::new(vec![
        field("tags", &[], MergeKind::Append),
        field("name", &["type"], MergeKind::Overwrite),
        field("note", &[], MergeKind::SetOnce),
        field("items", &[], MergeKind::SetOnceAppend),
    ])
    .unwrap()
}

#[test]
fn scenario_duplicate_field_with_unknown_key() {
    let input = vec![entry("field1", "a"), entry("field1", "b"), entry("type", "c")];
    let r = parse_file_working(&input);
    assert_eq!(r.field1, strings(&["a", "b"]));
    assert_eq!(r.field2, Vec::<String>::new());
    assert_eq!(r.unknown.get(&"type".to_string()), Some(&"c".to_string()));
    assert!(r.unknown.get(&"field1".to_string()).is_none());
}

#[test]
fn scenario_manual_resolver_matches_generated_one() {
    let input = vec![entry("field1", "a"), entry("field2", "x"), entry("field1", "b"), entry("type", "c")];
    let m = parse_file_working_manual_impl(&input);
    let g = parse_file_working(&input);
    assert_eq!(m.field1, strings(&["a", "b"]));
    assert_eq!(m.field2, strings(&["x"]));
    assert_eq!(m.field1, g.field1);
    assert_eq!(m.field2, g.field2);
    assert_eq!(m.unknown.get(&"type".to_string()), Some(&"c".to_string()));
}

#[test]
fn strict_decoder_rejects_repeated_field() {
    let input = vec![entry("field1", "a"), entry("field1", "b"), entry("field2", "c")];
    assert_eq!(parse_file_now_working(&input).unwrap_err(), StrictError::DuplicateField("field1".to_string()));
}

#[test]
fn strict_decoder_accepts_single_occurrences() {
    let input = vec![entry("field2", "y"), entry("other", "z"), entry("field1", "x")];
    let r = parse_file_now_working(&input).unwrap();
    assert_eq!(r.field1, strings(&["x"]));
    assert_eq!(r.field2, strings(&["y"]));
}

#[test]
fn strict_decoder_reports_missing_and_invalid() {
    let only_one = vec![entry("field1", "x")];
    assert_eq!(parse_file_now_working(&only_one).unwrap_err(), StrictError::MissingField("field2".to_string()));
    assert_eq!(parse_file_now_working(&vec![]).unwrap_err(), StrictError::MissingField("field1".to_string()));
    let bad = vec![broken("field2"), entry("field1", "x")];
    assert_eq!(parse_file_now_working(&bad).unwrap_err(), StrictError::InvalidValue("field2".to_string()));
}

#[test]
fn append_keeps_arrival_order_and_overwrite_keeps_last() {
    let s = mixed_schema();
    let r = decode_keyed(&s, &vec![entry("tags", "v1"), entry("name", "v1"), entry("tags", "v2"), entry("name", "v2")]);
    assert_eq!(list(&r.slots[0]), strings(&["v1", "v2"]));
    assert_eq!(scalar(&r.slots[1]), "v2");
}

#[test]
fn alias_acts_as_the_field_name() {
    let s = mixed_schema();
    let by_alias = decode_keyed(&s, &vec![entry("type", "v")]);
    let by_name = decode_keyed(&s, &vec![entry("name", "v")]);
    assert_eq!(scalar(&by_alias.slots[1]), "v");
    assert_eq!(scalar(&by_name.slots[1]), "v");
    assert!(by_alias.unknown.is_empty());
    match s.resolve(&"type".to_string()) {
        FieldSlot::Known(i) => assert_eq!(i, 1),
        FieldSlot::Unknown(_) => panic!("alias not resolved"),
    }
}

#[test]
fn resolution_is_exact_and_case_sensitive() {
    let s = mixed_schema();
    match s.resolve(&"Name".to_string()) {
        FieldSlot::Unknown(k) => assert_eq!(k, "Name"),
        FieldSlot::Known(_) => panic!("case folded"),
    }
}

#[test]
fn unknown_key_is_captured_and_fields_untouched() {
    let s = mixed_schema();
    let r = decode_keyed(&s, &vec![entry("extra", "1"), entry("extra", "2")]);
    assert_eq!(r.unknown.get(&"extra".to_string()), Some(&"2".to_string()));
    assert_eq!(list(&r.slots[0]), Vec::<String>::new());
    assert_eq!(scalar(&r.slots[1]), "");
}

#[test]
fn empty_input_gives_empty_values() {
    let s = mixed_schema();
    let r = decode_keyed(&s, &vec![]);
    assert_eq!(list(&r.slots[0]), Vec::<String>::new());
    assert_eq!(scalar(&r.slots[1]), "");
    assert!(matches!(r.slots[2], FieldValue::Maybe(None)));
    assert!(matches!(r.slots[3], FieldValue::MaybeList(None)));
    assert!(r.unknown.is_empty());
}

#[test]
fn malformed_value_counts_as_empty_then_accumulates() {
    let s = mixed_schema();
    let r = decode_keyed(&s, &vec![broken("tags"), entry("tags", "v")]);
    assert_eq!(list(&r.slots[0]), strings(&["", "v"]));
    let u = decode_keyed(&s, &vec![broken("odd")]);
    assert_eq!(u.unknown.get(&"odd".to_string()), Some(&"".to_string()));
}

#[test]
fn set_once_kinds() {
    let s = mixed_schema();
    let r = decode_keyed(&s, &vec![entry("note", "a"), entry("items", "x"), entry("note", "b"), entry("items", "y")]);
    match &r.slots[2] {
        FieldValue::Maybe(Some(v)) => assert_eq!(v, "b"),
        other => panic!("{:?}", other),
    }
    match &r.slots[3] {
        FieldValue::MaybeList(Some(v)) => assert_eq!(v, &strings(&["x", "y"])),
        other => panic!("{:?}", other),
    }
}

#[test]
fn positional_input_shorter_than_fields_is_truncated() {
    let s = mixed_schema();
    let vals = vec![FieldValue::List(strings(&["a"])), FieldValue::Scalar("n".to_string())];
    assert_eq!(decode_positional(&s, vals).unwrap_err(), DecodeError::Truncated { expected: 4, found: 2 });
}

#[test]
fn positional_input_fills_fields_in_order() {
    let s = root_schema();
    let vals = vec![
        FieldValue::List(strings(&["a"])),
        FieldValue::List(strings(&["b", "c"])),
        FieldValue::Scalar("ignored".to_string()),
    ];
    let r = decode_positional(&s, vals).unwrap();
    assert_eq!(r.slots.len(), 2);
    assert_eq!(list(&r.slots[0]), strings(&["a"]));
    assert_eq!(list(&r.slots[1]), strings(&["b", "c"]));
    assert!(r.unknown.is_empty());
}

#[test]
fn malformed_stream_fails_with_its_cause() {
    let s = root_schema();
    let events = vec![Ok(entry("field1", "a")), Err("unterminated tag".to_string()), Err("later".to_string())];
    assert_eq!(decode_stream(&s, &events).unwrap_err(), DecodeError::Malformed("unterminated tag".to_string()));
    let good = vec![Ok(entry("field1", "a")), Ok(entry("field1", "b"))];
    let r = decode_stream(&s, &good).unwrap();
    assert_eq!(list(&r.slots[0]), strings(&["a", "b"]));
}

#[test]
fn ambiguous_alias_is_rejected() {
    let r = Schema::new(vec![field("a", &["x"], MergeKind::Overwrite), field("b", &["x"], MergeKind::Append)]);
    match r {
        Err(BindingError::AmbiguousKey(k)) => assert_eq!(k, "x"),
        Ok(_) => panic!("accepted an ambiguous schema"),
    }
    let r = Schema::new(vec![field("a", &[], MergeKind::Overwrite), field("b", &["a"], MergeKind::Append)]);
    assert!(r.is_err());
    let r = Schema::new(vec![field("a", &["b"], MergeKind::Overwrite), field("b", &[], MergeKind::Append)]);
    assert!(r.is_err());
}

#[test]
fn builder_feeds_one_input_at_a_time() {
    let s = root_schema();
    let mut b = RecordBuilder::new(&s);
    b.feed(&s, &"field2".to_string(), Some("q".to_string()));
    b.feed(&s, &"field2".to_string(), None);
    let r = b.finish();
    assert_eq!(list(&r.slots[1]), strings(&["q", ""]));
}

#[test]
fn merge_strategies_on_plain_types() {
    let mut n: i32 = 1;
    n.add_data("k", 5);
    assert_eq!(n, 5);
    let mut u: u32 = 1;
    u.add_data("k", 7);
    assert_eq!(u, 7);
    let mut v: Vec<u32> = vec![1];
    v.add_data("k", 2);
    assert_eq!(v, vec![1, 2]);
    let mut o: Option<Vec<u32>> = None;
    o.add_data("k", 3);
    o.add_data("k", 4);
    assert_eq!(o, Some(vec![3, 4]));
    let mut flag: Option<()> = None;
    flag.add_data("k", "anything".to_string());
    assert_eq!(flag, Some(()));
    let mut bucket = UnknownBucket::new();
    bucket.add_data("k", "1".to_string());
    bucket.add_data("k", "2".to_string());
    assert_eq!(bucket.get(&"k".to_string()), Some(&"2".to_string()));
}

#[test]
fn zero_and_merge_values() {
    let z = zero_value(MergeKind::Append);
    let m = merge_value(z, "k", "a".to_string());
    assert_eq!(list(&m), strings(&["a"]));
    let z = zero_value(MergeKind::Overwrite);
    assert_eq!(scalar(&merge_value(z, "k", "b".to_string())), "b");
}

#[test]
fn nested_record_is_replaced_not_accumulated() {
    let mut held = parse_file_working(&vec![entry("field1", "old")]);
    let incoming = parse_file_working(&vec![entry("field1", "new"), entry("field2", "x")]);
    held.add_data("child", incoming);
    assert_eq!(held.field1, strings(&["new"]));
    assert_eq!(held.field2, strings(&["x"]));
}
