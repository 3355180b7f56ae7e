use wasmlib::hashtypes::ScAddress;
use wasmlib::hashtypes::ScColor;
use wasmlib::hashtypes::ScHname;
use wasmlib::host::Host;
use wasmlib::keys::Key32;
use wasmlib::mutable::ScMutableMap;

#[test]
fn write_then_read_int() {
    let mut host = Host::new();
    let m = ScMutableMap::new(&mut host);
    for v in [0i64, 7, -7, i64::MIN, i64::MAX] {
        m.get_int("n", &mut host).set_value(&mut host, v);
        assert!(m.get_int("n", &mut host).present(&host));
        assert_eq!(m.get_int("n", &mut host).value(&host), v);
    }
}

#[test]
fn write_then_read_string() {
    let mut host = Host::new();
    let m = ScMutableMap::new(&mut host);
    m.get_string("s", &mut host).set_value(&mut host, "caf\u{00e9} \u{2603}");
    assert_eq!(m.get_string("s", &mut host).value(&host), "caf\u{00e9} \u{2603}");
    // absent string reads as empty, and as non-present
    assert!(!m.get_string("t", &mut host).present(&host));
    assert_eq!(m.get_string("t", &mut host).value(&host), "");
}

#[test]
fn write_then_read_bytes() {
    let mut host = Host::new();
    let m = ScMutableMap::new(&mut host);
    let payload = vec![1u8, 2, 3];
    m.get_bytes("b", &mut host).set_value(&mut host, payload.as_slice());
    assert_eq!(m.get_bytes("b", &mut host).value(&host), payload);
}

#[test]
fn write_then_read_address() {
    let mut host = Host::new();
    let m = ScMutableMap::new(&mut host);
    let addr = ScAddress::from_bytes(&[5u8; 33]);
    m.get_address("a", &mut host).set_value(&mut host, &addr);
    assert!(m.get_address("a", &mut host).value(&host) == addr);
}

#[test]
fn write_then_read_hname_and_color() {
    let mut host = Host::new();
    let m = ScMutableMap::new(&mut host);
    m.get_hname("h", &mut host).set_value(&mut host, ScHname(99));
    assert!(m.get_hname("h", &mut host).value(&host) == ScHname(99));
    let c = ScColor::iota();
    m.get_color("c", &mut host).set_value(&mut host, &c);
    assert!(m.get_color("c", &mut host).value(&host) == c);
    let minted = ScColor::mint();
    assert!(!(minted == c));
    assert_eq!(minted.to_bytes(), vec![0xffu8; 32]);
}

#[test]
fn write_then_read_through_immutable_view() {
    let mut host = Host::new();
    let m = ScMutableMap::new(&mut host);
    m.get_int("n", &mut host).set_value(&mut host, 41);
    let ro = m.immutable();
    assert_eq!(ro.get_int("n", &mut host).value(&host), 41);
}

#[test]
fn array_bounds_report_absence_past_length() {
    let mut host = Host::new();
    let m = ScMutableMap::new(&mut host);
    let arr = m.get_int_array("xs", &mut host);
    assert_eq!(arr.length(&host), 0);
    arr.get_int(0).set_value(&mut host, 10);
    arr.get_int(1).set_value(&mut host, 11);
    arr.get_int(2).set_value(&mut host, 12);
    assert_eq!(arr.length(&host), 3);
    // every index below the length exists
    assert!(arr.get_int(0).present(&host));
    assert!(arr.get_int(1).present(&host));
    assert!(arr.get_int(2).present(&host));
    assert_eq!(arr.get_int(1).value(&host), 11);
    // the length and everything beyond it reads as absent
    assert!(!arr.get_int(3).present(&host));
    assert!(!arr.get_int(100).present(&host));
}

#[test]
fn array_overwrite_keeps_length() {
    let mut host = Host::new();
    let m = ScMutableMap::new(&mut host);
    let arr = m.get_string_array("ss", &mut host);
    arr.get_string(0).set_value(&mut host, "a");
    arr.get_string(0).set_value(&mut host, "b");
    assert_eq!(arr.length(&host), 1);
    assert_eq!(arr.get_string(0).value(&host), "b");
}

#[test]
fn nested_maps_resolve_deterministically() {
    let mut host = Host::new();
    let m = ScMutableMap::new(&mut host);
    let inner1 = m.get_map("inner", &mut host);
    inner1.get_int(&Key32(3), &mut host).set_value(&mut host, 5);
    let inner2 = m.get_map("inner", &mut host);
    assert_eq!(inner1.obj_id, inner2.obj_id);
    assert_eq!(inner2.get_int(&Key32(3), &mut host).value(&host), 5);
}

#[test]
fn numeric_and_named_keys_are_both_usable() {
    let mut host = Host::new();
    let m = ScMutableMap::new(&mut host);
    m.get_int(&Key32(12), &mut host).set_value(&mut host, 1);
    m.get_int("twelve", &mut host).set_value(&mut host, 2);
    assert_eq!(m.get_int(&Key32(12), &mut host).value(&host), 1);
    assert_eq!(m.get_int(&String::from("twelve"), &mut host).value(&host), 2);
}
