use rusticata_macros::{bytes_to_u64, HexSlice, HexU16, HexU8};

#[test]
fn debug_print_hexu8() {
    assert_eq!(HexU8(18).to_string(), "0x12");
}

#[test]
fn debug_print_hexu16() {
    assert_eq!(HexU16(32769).to_string(), "0x8001");
}

#[test]
fn debug_print_hexslice() {
    assert_eq!(
        HexSlice(&[15, 16, 17, 18, 19, 20]).to_string(),
        "[0f 10 11 12 13 14]"
    );
}

#[test]
fn hex_edge_values() {
    assert_eq!(HexU8(0).to_string(), "0x00");
    assert_eq!(HexU8(255).to_string(), "0xff");
    assert_eq!(HexU16(0xabc).to_string(), "0x0abc");
    assert_eq!(HexSlice(&[]).to_string(), "[]");
    assert_eq!(HexSlice(&[0xfe]).to_string(), "[fe]");
}

#[test]
fn bytes_to_u64_values() {
    assert_eq!(bytes_to_u64(&[]), Err("empty"));
    assert_eq!(bytes_to_u64(&[0; 9]), Err("overflow"));
    assert_eq!(bytes_to_u64(&[1, 2, 3]), Ok(0x010203));
    assert_eq!(bytes_to_u64(&[0xff; 8]), Ok(u64::MAX));
    assert_eq!(bytes_to_u64(&[7]), Ok(7));
}

#[test]
fn written_value_reads_back() {
    let mut mem: Vec<u8> = vec![0; 6];
    let (b, _) = rusticata_macros::set_be_u32((&mut mem, 1), 0x8badf00d).expect("fits");
    assert_eq!(bytes_to_u64(&b[1..5]), Ok(0x8badf00d));
}
