use wasmlib::codec::append_u64_le;
use wasmlib::codec::read_u64_le;
use wasmlib::host::Host;
use wasmlib::host::OBJ_ID_ROOT;
use wasmlib::host::TYPE_INT;
use wasmlib::host::TYPE_MAP;
use wasmlib::host::TYPE_STRING;
use wasmlib::keys::KEY_PARAMS;
use wasmlib::keys::KEY_STATE;
use wasmlib::keys::Key32;

#[test]
fn interning_is_idempotent() {
    let mut host = Host::new();
    let k1 = host.intern_key("owner");
    let k2 = host.intern_key("owner");
    assert_eq!(k1.0, k2.0);
    let k3 = host.intern_key("color");
    assert_ne!(k1.0, k3.0);
    let k4 = host.intern_key("owner");
    assert_eq!(k1.0, k4.0);
    assert!(k1.0 >= 0);
    assert!(k3.0 >= 0);
}

#[test]
fn interning_bytes_and_names_share_one_table() {
    let mut host = Host::new();
    let k1 = host.intern_key("abc");
    let k2 = host.intern_key_bytes(&[97, 98, 99]);
    assert_eq!(k1.0, k2.0);
}

#[test]
fn set_then_get_bytes() {
    let mut host = Host::new();
    host.set_bytes(OBJ_ID_ROOT, Key32(4), TYPE_STRING, "hi".as_bytes());
    assert!(host.value_exists(OBJ_ID_ROOT, Key32(4), TYPE_STRING));
    assert_eq!(host.get_bytes(OBJ_ID_ROOT, Key32(4), TYPE_STRING), "hi".as_bytes());
}

#[test]
fn absent_slot_reads_empty() {
    let host = Host::new();
    assert!(!host.value_exists(OBJ_ID_ROOT, Key32(4), TYPE_STRING));
    assert_eq!(host.get_bytes(OBJ_ID_ROOT, Key32(4), TYPE_STRING), Vec::<u8>::new());
}

#[test]
fn kind_segregation_reads_absence() {
    let mut host = Host::new();
    let mut enc: Vec<u8> = Vec::new();
    append_u64_le(&mut enc, 5);
    host.set_bytes(OBJ_ID_ROOT, Key32(4), TYPE_INT, enc.as_slice());
    // a read under another kind sees absence, never the integer's bytes
    assert!(host.value_exists(OBJ_ID_ROOT, Key32(4), TYPE_INT));
    assert!(!host.value_exists(OBJ_ID_ROOT, Key32(4), TYPE_STRING));
    assert_eq!(host.get_bytes(OBJ_ID_ROOT, Key32(4), TYPE_STRING), Vec::<u8>::new());
}

#[test]
fn overwrite_shadows_older_value() {
    let mut host = Host::new();
    let mut a: Vec<u8> = Vec::new();
    append_u64_le(&mut a, 1);
    let mut b: Vec<u8> = Vec::new();
    append_u64_le(&mut b, 2);
    host.set_bytes(OBJ_ID_ROOT, Key32(0), TYPE_INT, a.as_slice());
    host.set_bytes(OBJ_ID_ROOT, Key32(0), TYPE_INT, b.as_slice());
    let out = host.get_bytes(OBJ_ID_ROOT, Key32(0), TYPE_INT);
    assert_eq!(read_u64_le(out.as_slice(), 0), 2);
}

#[test]
fn resolve_or_create_is_stable() {
    let mut host = Host::new();
    let id1 = host.get_object_id(OBJ_ID_ROOT, Key32(KEY_STATE), TYPE_MAP);
    let id2 = host.get_object_id(OBJ_ID_ROOT, Key32(KEY_STATE), TYPE_MAP);
    assert_eq!(id1, id2);
    let other = host.get_object_id(OBJ_ID_ROOT, Key32(KEY_PARAMS), TYPE_MAP);
    assert_ne!(id1, other);
}

#[test]
fn created_objects_are_distinct() {
    let mut host = Host::new();
    let a = host.create_object(TYPE_MAP);
    let b = host.create_object(TYPE_MAP);
    assert_ne!(a, b);
}

#[test]
fn logs_and_events_are_recorded_in_order() {
    let mut host = Host::new();
    host.append_log("first");
    host.append_log("second");
    host.append_event("boom");
    assert_eq!(host.log_count(), 2);
    assert_eq!(host.log_at(0), "first");
    assert_eq!(host.log_at(1), "second");
    assert_eq!(host.event_count(), 1);
    assert_eq!(host.event_at(0), "boom");
    assert_eq!(host.effect_count(), 0);
}
