use xphttpbridge::config::ServerConfig;
use xphttpbridge::dataref::{compile_dataref_type_map, DataRefInfo, RefValue, RefValues};
use xphttpbridge::ref_actions::{DataKind, DataValue, GetRefStep, RefActions};
use xphttpbridge::server::Server;

fn info(name: &str, ty: &str) -> DataRefInfo {
    DataRefInfo {
        ref_name: name.to_string(),
        ref_type: ty.to_string(),
        writable: true,
        value_type: String::new(),
        value_description: String::new(),
    }
}

#[test]
fn server_takes_its_settings_from_the_config() {
    let s = Server::new(ServerConfig { port: 49000, address: "127.0.0.1".to_string() });
    assert_eq!(s.port, 49000);
    assert_eq!(s.address, "127.0.0.1");
    assert_eq!(s.listen_address(), "127.0.0.1:49000");
    let s = Server::new(ServerConfig { port: 0, address: "0.0.0.0".to_string() });
    assert_eq!(s.listen_address(), "0.0.0.0:0");
}

#[test]
fn health_and_fallback() {
    let h = Server::health_response();
    assert_eq!((h.status, h.message.as_str()), (200, "OK"));
    let f = Server::fallback_response();
    assert_eq!((f.status, f.message.as_str()), (404, "not found"));
}

#[test]
fn get_responses() {
    let r = Server::get_ref_response("sim/x".to_string(), Some(RefValue::Float(270.0f32.to_bits())));
    assert_eq!((r.status, r.message.as_str(), r.ref_name.as_str()), (200, "OK", "sim/x"));
    assert_eq!(f32::from_bits(match r.ref_value { RefValue::Float(b) => b, _ => panic!() }), 270.0);
    let r = Server::get_ref_response("sim/y".to_string(), None);
    assert_eq!((r.status, r.message.as_str(), r.ref_name.as_str()), (404, "ref not found", "sim/y"));
    assert_eq!(r.ref_value, RefValue::Float(0));
    let r = Server::get_refs_response("sim/z".to_string(), Some(RefValues::Ints(vec![1, 2])));
    assert_eq!(r.status, 200);
    assert!(matches!(r.ref_values, RefValues::Ints(ref v) if v == &vec![1, 2]));
    let r = Server::get_refs_response("sim/z".to_string(), None);
    assert_eq!((r.status, r.message.as_str()), (404, "ref not found"));
    assert!(matches!(r.ref_values, RefValues::Floats(ref v) if v.is_empty()));
}

#[test]
fn set_responses() {
    let r = Server::set_ref_response("a".to_string(), RefValue::Int(5), true);
    assert_eq!((r.status, r.message.as_str(), r.ref_value), (200, "OK", RefValue::Int(5)));
    let r = Server::set_ref_response("a".to_string(), RefValue::Double(1), false);
    assert_eq!((r.status, r.message.as_str(), r.ref_value), (500, "failed to set ref", RefValue::Double(1)));
    let r = Server::set_refs_response("b".to_string(), RefValues::Bytes(vec![7]), true);
    assert_eq!((r.status, r.message.as_str(), r.ref_name.as_str()), (200, "OK", "b"));
    let r = Server::set_refs_response("b".to_string(), RefValues::Bytes(vec![7]), false);
    assert_eq!((r.status, r.message.as_str()), (500, "failed to set ref"));
    assert!(matches!(r.ref_values, RefValues::Bytes(ref v) if v == &vec![7]));
}

#[test]
fn request_types_come_from_the_listing() {
    let m = compile_dataref_type_map(vec![
        info("f", "float"),
        info("d", "double"),
        info("i", "int"),
        info("fa", "float[3]"),
        info("ia", "int[10]"),
        info("ba", "byte[40]"),
        info("s", "string"),
    ]);
    assert_eq!(Server::value_type_for(&m, "f"), Some(RefValue::Float(0)));
    assert_eq!(Server::value_type_for(&m, "d"), Some(RefValue::Double(0)));
    assert_eq!(Server::value_type_for(&m, "i"), Some(RefValue::Int(0)));
    assert_eq!(Server::value_type_for(&m, "fa"), None);
    assert_eq!(Server::value_type_for(&m, "missing"), None);
    assert!(matches!(Server::values_type_for(&m, "fa"), Some(RefValues::Floats(_))));
    assert!(matches!(Server::values_type_for(&m, "ia"), Some(RefValues::Ints(_))));
    assert!(matches!(Server::values_type_for(&m, "ba"), Some(RefValues::Bytes(_))));
    assert!(Server::values_type_for(&m, "s").is_none());
    assert!(Server::values_type_for(&m, "f").is_none());
}

fn run_get_ref(found: impl Fn(DataKind) -> Option<DataValue>) -> (Option<DataValue>, Vec<DataKind>) {
    let a = RefActions::new();
    let mut tried = Vec::new();
    let mut step = a.get_ref_start();
    loop {
        match step {
            GetRefStep::Probe(k) => {
                tried.push(k);
                step = a.get_ref_next(k, found(k));
            }
            GetRefStep::Done(r) => return (r, tried),
        }
    }
}

#[test]
fn get_ref_tries_types_in_order() {
    let (r, tried) = run_get_ref(|_| None);
    assert_eq!(r, None);
    assert_eq!(
        tried,
        vec![
            DataKind::F32,
            DataKind::F64,
            DataKind::I32,
            DataKind::I16,
            DataKind::U32,
            DataKind::U16,
            DataKind::U8,
            DataKind::I8,
            DataKind::Bool
        ]
    );
    let (r, tried) = run_get_ref(|k| match k {
        DataKind::I16 => Some(DataValue::I16(-3)),
        DataKind::U8 => Some(DataValue::U8(3)),
        _ => None,
    });
    assert_eq!(r, Some(DataValue::I16(-3)));
    assert_eq!(tried.len(), 4);
    let (r, _) = run_get_ref(|k| if k == DataKind::Bool { Some(DataValue::Bool(true)) } else { None });
    assert_eq!(r, Some(DataValue::Bool(true)));
}

#[test]
fn writability_is_checked_for_the_type_found() {
    let a = RefActions::new();
    assert_eq!(a.writability_probe(Some(DataValue::F64(0))), Some(DataKind::F64));
    assert_eq!(a.writability_probe(Some(DataValue::U16(9))), Some(DataKind::U16));
    assert_eq!(a.writability_probe(None), None);
    assert_eq!(DataValue::I8(1).kind(), DataKind::I8);
    assert_eq!(DataValue::U32(1).kind(), DataKind::U32);
}

#[test]
fn listing_is_limited_by_fetch_size() {
    let refs = vec![info("a", "int"), info("b", "float"), info("c", "byte[4]")];
    let r = Server::all_refs_response(&refs, None);
    assert_eq!((r.status, r.message.as_str()), (200, "OK"));
    assert_eq!(r.refs.iter().map(|i| i.ref_name.as_str()).collect::<Vec<_>>(), vec!["a", "b", "c"]);
    let r = Server::all_refs_response(&refs, Some(2));
    assert_eq!(r.refs.iter().map(|i| i.ref_name.as_str()).collect::<Vec<_>>(), vec!["a", "b"]);
    assert_eq!(r.refs[1].ref_type, "float");
    assert!(r.refs[1].writable);
    assert!(Server::all_refs_response(&refs, Some(0)).refs.is_empty());
    assert_eq!(Server::all_refs_response(&refs, Some(10)).refs.len(), 3);
}

#[test]
fn listed_array_types_are_read_as_arrays() {
    let m = compile_dataref_type_map(vec![info("f", "float[8]"), info("i", "int[16]"), info("b", "byte[260]")]);
    assert!(matches!(Server::values_type_for(&m, "f"), Some(RefValues::Floats(v)) if v.is_empty()));
    assert!(matches!(Server::values_type_for(&m, "i"), Some(RefValues::Ints(v)) if v.is_empty()));
    assert!(matches!(Server::values_type_for(&m, "b"), Some(RefValues::Bytes(v)) if v.is_empty()));
}
