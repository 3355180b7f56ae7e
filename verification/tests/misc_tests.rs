use wasmlib::game::Direction;
use wasmlib::game::Point;
use wasmlib::game::Ship;
use wasmlib::game::Status;
use wasmlib::hashtypes::ScChainId;
use wasmlib::hashtypes::ScContractId;
use wasmlib::hashtypes::ScHname;
use wasmlib::strutil::i64_to_dec_string;
use wasmlib::strutil::str_eq;
use wasmlib::strutil::u64_to_dec_string;
use wasmlib::vector_as_u8_array;

#[test]
fn decimal_rendering_of_integers() {
    assert_eq!(u64_to_dec_string(0), "0");
    assert_eq!(u64_to_dec_string(10), "10");
    assert_eq!(u64_to_dec_string(u64::MAX), "18446744073709551615");
    assert_eq!(i64_to_dec_string(0), "0");
    assert_eq!(i64_to_dec_string(-1), "-1");
    assert_eq!(i64_to_dec_string(-123), "-123");
    assert_eq!(i64_to_dec_string(i64::MIN), "-9223372036854775808");
    assert_eq!(i64_to_dec_string(i64::MAX), "9223372036854775807");
}

#[test]
fn string_equality_helper() {
    assert!(str_eq("", ""));
    assert!(str_eq("abc", "abc"));
    assert!(!str_eq("abc", "abd"));
    assert!(!str_eq("abc", "ab"));
    assert!(str_eq("caf\u{00e9}", "caf\u{00e9}"));
}

#[test]
fn contract_id_composition() {
    let chain = ScChainId::from_bytes(&[1u8; 33]);
    let cid = ScContractId::new(&chain, &ScHname(0x01020304));
    assert!(cid.chain_id() == chain);
    assert!(cid.hname() == ScHname(0x01020304));
    let agent = cid.as_agent_id();
    assert_eq!(agent.to_bytes(), cid.to_bytes());
    assert_eq!(agent.address().to_bytes(), chain.to_bytes());
}

#[test]
fn hname_is_deterministic_and_decimal_renders() {
    let a = ScHname::new("tokenregistry");
    let b = ScHname::new("tokenregistry");
    assert!(a == b);
    assert_eq!(ScHname(1234).to_string(), "1234");
}

#[test]
fn fleet_composition() {
    let ships = Ship::get_all();
    assert_eq!(ships.len(), 4);
    assert_eq!(ships[&1], 4);
    assert_eq!(ships[&2], 3);
    assert_eq!(ships[&3], 2);
    assert_eq!(ships[&4], 1);
}

#[test]
fn point_steps_in_all_directions() {
    let mut p = Point { row: 5, column: 5 };
    p.go_to(&Direction::Up);
    assert_eq!(p, Point { row: 4, column: 5 });
    p.go_to(&Direction::Right);
    assert_eq!(p, Point { row: 4, column: 6 });
    p.go_to(&Direction::Down);
    assert_eq!(p, Point { row: 5, column: 6 });
    p.go_to(&Direction::Left);
    assert_eq!(p, Point { row: 5, column: 5 });
}

#[test]
fn statuses_compare_structurally() {
    assert_eq!(Status::Empty, Status::Empty);
    assert_ne!(Status::Ship, Status::Kill);
}

#[test]
fn vector_to_fixed_array_pads_and_truncates() {
    let short = vec![1u8, 2, 3];
    let arr = vector_as_u8_array(short);
    assert_eq!(arr[0], 1);
    assert_eq!(arr[2], 3);
    assert_eq!(arr[3], 0);
    assert_eq!(arr[36], 0);
    let long = vec![7u8; 50];
    let arr2 = vector_as_u8_array(long);
    assert_eq!(arr2, [7u8; 37]);
}
