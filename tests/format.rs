use regcli::format::{
    get_printable_binary, get_printable_multi_sz, get_printable_sz, get_printable_value,
};
use regcli::registry::{RegValue, ValueType};

fn wide(s: &str) -> Vec<u8> {
    s.encode_utf16().flat_map(|u| u.to_le_bytes()).collect()
}

fn shown(ty: ValueType, data: Vec<u8>) -> String {
    get_printable_value(&RegValue { ty, data })
}

#[test]
fn binary_as_hex_pairs() {
    assert_eq!(get_printable_binary(&vec![0x0a, 0xff, 0x00]), "0a ff 00");
    assert_eq!(get_printable_binary(&Vec::new()), "");
    assert_eq!(shown(ValueType::Bytes, vec![0x7f]), "7f");
}

#[test]
fn string_stops_at_nul() {
    assert_eq!(get_printable_sz(&wide("hi\0junk")), "hi");
    assert_eq!(get_printable_sz(&wide("héllo")), "héllo");
    assert_eq!(get_printable_sz(&wide("\u{1F600}!")), "\u{1F600}!");
    let lone: Vec<u8> = [0xd800u16, 0x41].iter().flat_map(|u| u.to_le_bytes()).collect();
    assert_eq!(get_printable_sz(&lone), "\u{fffd}A");
    assert_eq!(shown(ValueType::ExpandString, wide("%PATH%\0")), "%PATH%");
}

#[test]
fn multi_string_joined_by_spaces() {
    assert_eq!(get_printable_multi_sz(&wide("ab\0cd\0\0")), "ab cd");
    assert_eq!(get_printable_multi_sz(&wide("ab\0cd")), "ab");
    assert_eq!(get_printable_multi_sz(&wide("a \0\0")), "a");
    assert_eq!(get_printable_multi_sz(&wide("\0x\0")), "");
    assert_eq!(shown(ValueType::MultiString, wide("one\0two\0three\0\0")), "one two three");
}

#[test]
fn numbers_in_hex_and_decimal() {
    assert_eq!(shown(ValueType::U32, vec![0x2a, 0, 0, 0]), "0x0000002a (42)");
    assert_eq!(shown(ValueType::U32, vec![0xff, 0xff, 0xff, 0xff]), "0xffffffff (4294967295)");
    assert_eq!(
        shown(ValueType::U64, vec![1, 0, 0, 0, 0, 0, 0, 1]),
        "0x100000000000001 (72057594037927937)"
    );
    assert_eq!(shown(ValueType::U64, vec![0; 8]), "0x00000000 (0)");
}

#[test]
fn unknown_data_placeholder() {
    assert_eq!(shown(ValueType::U32, vec![1, 2]), "(unknown data)");
    assert_eq!(shown(ValueType::U64, vec![1, 2, 3, 4]), "(unknown data)");
    assert_eq!(shown(ValueType::Other(3), vec![1]), "(unknown data)");
}
