// Concrete wire-format scenarios and boundary coverage: exact byte
// layouts for sequences, optionals and sum types, both sequence
// strategies, text, maps, and extreme bit patterns on the fast path.

use quick_ser::assoc::QuickMap;
use quick_ser::idents::pascal_to_snake;
use quick_ser::scalars::Timestamp;
use quick_ser::variants::Choice;
use quick_ser::QuickSer;

fn check_round_trip<T: QuickSer + PartialEq<T> + std::fmt::Debug>(t: &T) {
    let mut buffer = Vec::new();
    t.ser(&mut buffer);
    let mut progress = 0;
    let result = T::de_ser(&mut progress, &buffer);
    assert_eq!(progress, buffer.len());
    assert_eq!(&result, t);
}

#[test]
fn byte_sequence_block() {
    let v: Vec<u8> = vec![1, 2, 3];
    let mut buffer = Vec::new();
    v.ser(&mut buffer);
    assert_eq!(buffer, vec![3, 0, 0, 0, 0, 0, 0, 0, 1, 2, 3]);
    let mut progress = 0;
    let result = Vec::<u8>::de_ser(&mut progress, &buffer);
    assert_eq!(result, vec![1, 2, 3]);
    assert_eq!(progress, buffer.len());
}

#[test]
fn optional_present_and_absent() {
    let present: Option<u8> = Some(5);
    let mut buffer = Vec::new();
    present.ser(&mut buffer);
    assert_eq!(buffer, vec![1, 5]);
    let mut progress = 0;
    assert_eq!(Option::<u8>::de_ser(&mut progress, &buffer), Some(5));
    assert_eq!(progress, 2);

    let absent: Option<u8> = None;
    let mut buffer = Vec::new();
    absent.ser(&mut buffer);
    assert_eq!(buffer, vec![0]);
    let mut progress = 0;
    assert_eq!(Option::<u8>::de_ser(&mut progress, &buffer), None);
    assert_eq!(progress, 1);
}

#[test]
fn sum_type_cases() {
    let c = Choice::C { x: 1, y: 2 };
    let mut buffer = Vec::new();
    c.ser(&mut buffer);
    assert_eq!(buffer, vec![2, 1, 2]);
    let mut progress = 0;
    assert_eq!(Choice::de_ser(&mut progress, &buffer), c);
    assert_eq!(progress, 3);

    let a = Choice::A;
    let mut buffer = Vec::new();
    a.ser(&mut buffer);
    assert_eq!(buffer, vec![0]);
    check_round_trip(&a);

    let b = Choice::B(7);
    let mut buffer = Vec::new();
    b.ser(&mut buffer);
    assert_eq!(buffer, vec![1, 7]);
    check_round_trip(&b);
}

#[test]
fn trivial_bit_patterns() {
    check_round_trip(&0u8);
    check_round_trip(&u8::MAX);
    check_round_trip(&0u16);
    check_round_trip(&u16::MAX);
    check_round_trip(&0u32);
    check_round_trip(&u32::MAX);
    check_round_trip(&0u64);
    check_round_trip(&u64::MAX);
    check_round_trip(&0usize);
    check_round_trip(&usize::MAX);
    check_round_trip(&i8::MIN);
    check_round_trip(&-1i8);
    check_round_trip(&i16::MIN);
    check_round_trip(&i32::MIN);
    check_round_trip(&-1i32);
    check_round_trip(&i64::MIN);
    check_round_trip(&i64::MAX);
    check_round_trip(&isize::MIN);
    check_round_trip(&0u128);
    check_round_trip(&u128::MAX);
    check_round_trip(&i128::MIN);
    check_round_trip(&-1i128);
    check_round_trip(&true);
    check_round_trip(&false);
    check_round_trip(&'\u{0}');
    check_round_trip(&'A');
    check_round_trip(&'\u{10FFFF}');
    check_round_trip(&(1u8, 2u16, 3u32));
    check_round_trip(&(u64::MAX, i64::MIN));
    check_round_trip(&(1u8, 2u8, 3u8, 4u8));
}

#[test]
fn fixed_width_images() {
    let mut buffer = Vec::new();
    0x0102u16.ser(&mut buffer);
    assert_eq!(buffer, vec![2, 1]);

    let mut buffer = Vec::new();
    0x01020304u32.ser(&mut buffer);
    assert_eq!(buffer, vec![4, 3, 2, 1]);

    let mut buffer = Vec::new();
    true.ser(&mut buffer);
    false.ser(&mut buffer);
    assert_eq!(buffer, vec![1, 0]);

    let mut buffer = Vec::new();
    'A'.ser(&mut buffer);
    assert_eq!(buffer, vec![65, 0, 0, 0]);
}

#[test]
fn dual_path_sequences() {
    // equal logical content down the contiguous-block path...
    let bytes: Vec<u8> = vec![104, 105, 33];
    check_round_trip(&bytes);
    // ...and down the per-element path
    let texts: Vec<String> = vec!["104".to_string(), "105".to_string(), "33".to_string()];
    check_round_trip(&texts);
    // an empty sequence takes both paths to the same eight count bytes
    let none_bytes: Vec<u8> = vec![];
    let mut buffer = Vec::new();
    none_bytes.ser(&mut buffer);
    assert_eq!(buffer, vec![0, 0, 0, 0, 0, 0, 0, 0]);
    let none_texts: Vec<String> = vec![];
    let mut buffer = Vec::new();
    none_texts.ser(&mut buffer);
    assert_eq!(buffer, vec![0, 0, 0, 0, 0, 0, 0, 0]);
}

#[test]
fn text_exact_bytes() {
    let s = "hi".to_string();
    let mut buffer = Vec::new();
    s.ser(&mut buffer);
    assert_eq!(buffer, vec![2, 0, 0, 0, 0, 0, 0, 0, 104, 105]);
    let mut progress = 0;
    assert_eq!(String::de_ser(&mut progress, &buffer), "hi".to_string());
    assert_eq!(progress, buffer.len());

    check_round_trip(&String::new());
    check_round_trip(&"snake_case and Unicode: \u{00e9}\u{4e16}\u{1F600}".to_string());
}

#[test]
fn nested_composite() {
    let v: Vec<Option<(u8, u8, u8)>> = vec![Some((1, 2, 3)), None, Some((4, 5, 6))];
    check_round_trip(&v);
    let mut buffer = Vec::new();
    v.ser(&mut buffer);
    assert_eq!(
        buffer,
        vec![3, 0, 0, 0, 0, 0, 0, 0, 1, 1, 2, 3, 0, 1, 4, 5, 6]
    );
}

#[test]
fn map_entries_round_trip() {
    let mut m: QuickMap<String, u32> = QuickMap::new();
    m.insert("one".to_string(), 1);
    m.insert("two".to_string(), 2);
    assert_eq!(m.len(), 2);
    check_round_trip(&m);

    let empty: QuickMap<String, u32> = QuickMap::new();
    check_round_trip(&empty);

    // a map keyed and valued on the fast path
    let mut n: QuickMap<u64, u64> = QuickMap::new();
    n.insert(u64::MAX, 0);
    n.insert(0, u64::MAX);
    check_round_trip(&n);
}

#[test]
fn timestamp_round_trip() {
    let t = Timestamp { secs: 1700000000, nanos: 999999999 };
    check_round_trip(&t);
    let mut buffer = Vec::new();
    Timestamp { secs: 1, nanos: 2 }.ser(&mut buffer);
    assert_eq!(buffer, vec![1, 0, 0, 0, 0, 0, 0, 0, 2, 0, 0, 0]);
}

#[test]
fn encoding_is_deterministic() {
    let v: Vec<Option<(u8, u8, u8)>> = vec![Some((9, 8, 7)), None];
    let mut first = Vec::new();
    v.ser(&mut first);
    let mut second = Vec::new();
    v.ser(&mut second);
    assert_eq!(first, second);

    // appending to a non-empty buffer adds the same bytes after the prefix
    let mut third = vec![0xAB, 0xCD];
    v.ser(&mut third);
    assert_eq!(&third[2..], &first[..]);
}

#[test]
fn pascal_to_snake_names() {
    assert_eq!(pascal_to_snake("PascalCase"), "pascal_case");
    assert_eq!(pascal_to_snake("QuickSer"), "quick_ser");
    assert_eq!(pascal_to_snake("HTTPServer"), "httpserver");
    assert_eq!(pascal_to_snake("A"), "a");
    assert_eq!(pascal_to_snake(""), "");
    assert_eq!(pascal_to_snake("already_snake"), "already_snake");
}
