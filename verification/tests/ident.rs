use base64::Engine;
use hakoniwa::{generate_object_id, object_id_from, Point};
use num_bigint::BigUint;

fn at(x: u64, y: u64) -> Point {
    Point::new(BigUint::from(x), BigUint::from(y))
}

#[test]
fn point_keeps_its_coordinates() {
    let p = at(3, 4);
    assert_eq!(p.x(), &BigUint::from(3u32));
    assert_eq!(p.y(), &BigUint::from(4u32));
    assert_eq!(p.clone(), p);
    assert_ne!(p, at(4, 3));
}

#[test]
fn id_is_the_base64_of_name_point_tick_and_clock() {
    let id = object_id_from("tree", &at(1, 2), &BigUint::from(5u32), "now");
    assert_eq!(id, "dHJlZVBvaW50IHsgeDogMSwgeTogMiB9NW5vdw==");
}

#[test]
fn id_of_large_numbers_and_other_scripts() {
    let y = BigUint::parse_bytes(b"12345678901234567890123", 10).unwrap();
    let p = Point::new(BigUint::from(0u32), y);
    let id = object_id_from("木", &p, &BigUint::from(0u32), "");
    assert_eq!(id, "5pyoUG9pbnQgeyB4OiAwLCB5OiAxMjM0NTY3ODkwMTIzNDU2Nzg5MDEyMyB9MA==");
}

#[test]
fn id_writes_the_point_as_its_debug_text() {
    let p = at(10, 0);
    let id = object_id_from("", &p, &BigUint::from(7u32), "");
    let bytes = base64::engine::general_purpose::STANDARD.decode(id).unwrap();
    assert_eq!(String::from_utf8(bytes).unwrap(), format!("{:?}7", p));
}

#[test]
fn fresh_id_holds_name_point_and_tick() {
    let id = generate_object_id("tree", &at(1, 2), &BigUint::from(5u32));
    let bytes = base64::engine::general_purpose::STANDARD.decode(id).unwrap();
    let text = String::from_utf8(bytes).unwrap();
    assert!(text.starts_with("treePoint { x: 1, y: 2 }5"));
    assert!(text.len() > "treePoint { x: 1, y: 2 }5".len());
}
