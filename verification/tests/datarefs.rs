use ahash::AHashMap;
use xphttpbridge::dataref::{
    compile_dataref_type_map, filed_ref_type, map_string_to_ref_value_type,
    map_string_to_ref_values_type, parse_dataref_line, parse_datarefs, type_map_from_types,
    DataRefInfo, RefValue, RefValues,
};

fn info(name: &str, ty: &str) -> DataRefInfo {
    DataRefInfo {
        ref_name: name.to_string(),
        ref_type: ty.to_string(),
        writable: false,
        value_type: String::new(),
        value_description: String::new(),
    }
}

#[test]
fn three_word_line_has_no_unit_or_description() {
    let i = parse_dataref_line("sim/cockpit/autopilot/heading_mag\tfloat\ty").unwrap();
    assert_eq!(i.ref_name, "sim/cockpit/autopilot/heading_mag");
    assert_eq!(i.ref_type, "float");
    assert!(i.writable);
    assert_eq!(i.value_type, "");
    assert_eq!(i.value_description, "");
}

#[test]
fn long_line_joins_its_description() {
    let i = parse_dataref_line("sim/a/b  int[8]  n  meters   Some   long\tdescription here ").unwrap();
    assert_eq!(i.ref_name, "sim/a/b");
    assert_eq!(i.ref_type, "int[8]");
    assert!(!i.writable);
    assert_eq!(i.value_type, "meters");
    assert_eq!(i.value_description, "Some long description here");
}

#[test]
fn four_word_line_has_empty_description() {
    let i = parse_dataref_line("x double yes deg").unwrap();
    assert!(!i.writable);
    assert_eq!(i.value_type, "deg");
    assert_eq!(i.value_description, "");
}

#[test]
fn short_lines_describe_nothing() {
    assert!(parse_dataref_line("").is_none());
    assert!(parse_dataref_line("sim/x float").is_none());
    assert!(parse_dataref_line("   ").is_none());
}

#[test]
fn first_two_lines_are_skipped() {
    let text = "a b c\nd e f\nsim/one float y\nbad\r\nsim/two int n unit desc\r\n";
    let out = parse_datarefs(text);
    assert_eq!(out.len(), 2);
    assert_eq!(out[0].ref_name, "sim/one");
    assert!(out[0].writable);
    assert_eq!(out[1].ref_name, "sim/two");
    assert_eq!(out[1].value_description, "desc");
    assert!(parse_datarefs("only one line").is_empty());
    assert!(parse_datarefs("x y z\nx y z\n").is_empty());
}

#[test]
fn type_names_map_to_values() {
    assert_eq!(map_string_to_ref_value_type("float"), Some(RefValue::Float(0)));
    assert_eq!(map_string_to_ref_value_type("double"), Some(RefValue::Double(0)));
    assert_eq!(map_string_to_ref_value_type("int"), Some(RefValue::Int(0)));
    assert_eq!(map_string_to_ref_value_type("float[]"), None);
    assert_eq!(map_string_to_ref_value_type("Float"), None);
    assert!(matches!(map_string_to_ref_values_type("float[]"), Some(RefValues::Floats(v)) if v.is_empty()));
    assert!(matches!(map_string_to_ref_values_type("int[]"), Some(RefValues::Ints(v)) if v.is_empty()));
    assert!(matches!(map_string_to_ref_values_type("byte[]"), Some(RefValues::Bytes(v)) if v.is_empty()));
    assert!(map_string_to_ref_values_type("float[8]").is_none());
    assert!(map_string_to_ref_values_type("int").is_none());
}

#[test]
fn array_types_are_filed_without_size() {
    assert_eq!(filed_ref_type("float[8]"), "float[]");
    assert_eq!(filed_ref_type("byte[260]"), "byte[]");
    assert_eq!(filed_ref_type("int"), "int");
    assert_eq!(filed_ref_type("data["), "data[");
    assert_eq!(filed_ref_type("data]["), "data][");
    assert_eq!(filed_ref_type("a[1]b[2]c"), "a[]c");
    assert_eq!(filed_ref_type("x[1\n]"), "x[1\n]");
}

#[test]
fn type_map_files_each_name_under_its_last_type() {
    let refs = vec![info("a", "float"), info("b", "int[4]"), info("a", "double"), info("c", "byte[2]")];
    let m = compile_dataref_type_map(refs);
    assert_eq!(m.len(), 3);
    assert_eq!(m.get("a").map(String::as_str), Some("double"));
    assert_eq!(m.get("b").map(String::as_str), Some("int[]"));
    assert_eq!(m.get("c").map(String::as_str), Some("byte[]"));
    let empty: AHashMap<String, String> = compile_dataref_type_map(Vec::new());
    assert!(empty.is_empty());
}

#[test]
fn type_map_from_given_types() {
    let refs = vec![info("x", "ignored"), info("y", "ignored"), info("x", "ignored")];
    let types = vec!["one".to_string(), "two".to_string(), "three".to_string()];
    let m = type_map_from_types(&refs, &types);
    assert_eq!(m.len(), 2);
    assert_eq!(m.get("x").map(String::as_str), Some("three"));
    assert_eq!(m.get("y").map(String::as_str), Some("two"));
}

#[test]
fn description_splits_back_into_its_words() {
    let line = "n t y u  alpha\tbeta   gamma";
    let i = parse_dataref_line(line).unwrap();
    let back: Vec<&str> = i.value_description.split_whitespace().collect();
    let tail: Vec<&str> = line.split_whitespace().skip(4).collect();
    assert_eq!(back, tail);
    assert!(!i.ref_name.is_empty() && !i.ref_name.contains(char::is_whitespace));
}
