use rusticata_macros::{
    do_gen, gen_adjust_length, gen_adjust_length_u16, gen_align, gen_cond, gen_copy, gen_if_else,
    gen_many, gen_skip, gen_step, set_be_u16, set_be_u24, set_be_u32, set_be_u8, GenError,
    GenStep, Width,
};

#[test]
fn test_do_gen() {
    let mut mem: Vec<u8> = vec![0; 8];
    let expected = [1, 2, 3, 4, 5, 6, 7, 8];
    let steps = [
        GenStep::BeU8(1),
        GenStep::BeU8(2),
        GenStep::BeU16(0x0304),
        GenStep::BeU32(0x05060708),
    ];
    let r = do_gen((&mut mem, 0), &steps);
    match r {
        Ok((b, idx)) => {
            assert_eq!(idx, 8);
            assert_eq!(b.as_slice(), &expected);
        }
        Err(e) => panic!("error {:?}", e),
    }
}

#[test]
fn test_gen_skip() {
    let mut mem: Vec<u8> = vec![0; 8];
    let expected = [0, 0, 0, 0, 0, 0, 0, 0];
    let r = gen_skip((&mut mem, 0), 5);
    match r {
        Ok((b, idx)) => {
            assert_eq!(idx, 5);
            assert_eq!(b.as_slice(), &expected);
        }
        Err(e) => panic!("error {:?}", e),
    }
}

#[test]
fn test_gen_adjust_length_u16() {
    let mut mem: Vec<u8> = vec![0; 8];
    let expected = [0, 8, 0, 0, 0, 0, 0, 0];
    let steps = [GenStep::Skip(8), GenStep::AdjustLength(Width::U16, 0, 0)];
    let r = do_gen((&mut mem, 0), &steps);
    match r {
        Ok((b, idx)) => {
            assert_eq!(idx, 8);
            assert_eq!(b.as_slice(), &expected);
        }
        Err(e) => panic!("error {:?}", e),
    }

    let mut mem2: Vec<u8> = vec![0; 8];
    let r2 = gen_adjust_length_u16((&mut mem2, 0), 4, 0);
    match r2 {
        Err(GenError::InvalidOffset) => (),
        _ => panic!("gen_adjust_length_u16 failed"),
    };
}

#[test]
fn test_gen_be_u8() {
    let mut mem: Vec<u8> = vec![0; 8];
    let expected = [1, 2, 0, 0, 0, 0, 0, 0];
    let r = do_gen((&mut mem, 0), &[GenStep::BeU8(1), GenStep::BeU8(2)]);
    match r {
        Ok((b, idx)) => {
            assert_eq!(idx, 2);
            assert_eq!(b.as_slice(), &expected);
        }
        Err(e) => panic!("error {:?}", e),
    }
}

#[test]
fn test_set_be_u8() {
    let mut mem: Vec<u8> = vec![0; 8];
    let expected = [1, 2, 0, 0, 0, 0, 0, 0];
    let r = set_be_u8((&mut mem, 0), 1).and_then(|x| set_be_u8(x, 2));
    match r {
        Ok((b, idx)) => {
            assert_eq!(idx, 2);
            assert_eq!(b.as_slice(), &expected);
        }
        Err(e) => panic!("error {:?}", e),
    }
}

#[test]
fn test_gen_align() {
    let mut mem: Vec<u8> = vec![0; 8];
    let expected = [1, 0, 0, 0, 1, 0, 0, 0];
    let steps = [GenStep::BeU8(1), GenStep::Align(4), GenStep::BeU8(1)];
    let r = do_gen((&mut mem, 0), &steps);
    match r {
        Ok((b, idx)) => {
            assert_eq!(idx, 5);
            assert_eq!(b.as_slice(), &expected);
        }
        Err(e) => panic!("error {:?}", e),
    }
}

#[test]
fn test_gen_many() {
    let mut mem: Vec<u8> = vec![0; 8];
    let v: Vec<u32> = vec![1, 2, 3, 4];
    let expected = [0, 1, 0, 2, 0, 3, 0, 4];
    let r = gen_many((&mut mem, 0), &v, Width::U16);
    match r {
        Ok((b, idx)) => {
            assert_eq!(idx, 8);
            assert_eq!(b.as_slice(), &expected);
        }
        Err(e) => panic!("error {:?}", e),
    }
}

#[test]
fn test_gen_copy() {
    let mut mem: Vec<u8> = vec![0; 8];
    let v = [1, 2, 3, 4];
    let expected = [1, 2, 3, 4, 0, 0, 0, 0];
    let r = gen_copy((&mut mem, 0), &v, v.len());
    match r {
        Ok((b, idx)) => {
            assert_eq!(idx, 4);
            assert_eq!(b.as_slice(), &expected);
        }
        Err(e) => panic!("error {:?}", e),
    }
}

#[test]
fn set_be_u16_u24_u32_write_big_endian() {
    let mut mem: Vec<u8> = vec![0; 9];
    let r = set_be_u16((&mut mem, 0), 0xa1b2)
        .and_then(|x| set_be_u24(x, 0x00c3_d4e5))
        .and_then(|x| set_be_u32(x, 0xf607_1829));
    match r {
        Ok((b, idx)) => {
            assert_eq!(idx, 9);
            assert_eq!(b.as_slice(), &[0xa1, 0xb2, 0xc3, 0xd4, 0xe5, 0xf6, 0x07, 0x18, 0x29]);
        }
        Err(e) => panic!("error {:?}", e),
    }
}

#[test]
fn write_that_does_not_fit_fails_and_changes_nothing() {
    let mut mem: Vec<u8> = vec![9; 8];
    match set_be_u32((&mut mem, 6), 0x0102_0304) {
        Err(e) => assert_eq!(e, GenError::BufferTooSmall(10)),
        Ok(_) => panic!("write past the end succeeded"),
    }
    assert_eq!(mem, vec![9; 8]);
    match set_be_u16((&mut mem, 7), 1) {
        Err(e) => assert_eq!(e, GenError::BufferTooSmall(9)),
        Ok(_) => panic!("write past the end succeeded"),
    }
    match set_be_u8((&mut mem, 8), 1) {
        Err(e) => assert_eq!(e, GenError::BufferTooSmall(9)),
        Ok(_) => panic!("write past the end succeeded"),
    }
    match set_be_u24((&mut mem, 6), 1) {
        Err(e) => assert_eq!(e, GenError::BufferTooSmall(9)),
        Ok(_) => panic!("write past the end succeeded"),
    }
    assert_eq!(mem, vec![9; 8]);
}

#[test]
fn write_that_exactly_fills_the_buffer() {
    let mut mem: Vec<u8> = vec![0; 4];
    match set_be_u32((&mut mem, 0), 0xdead_beef) {
        Ok((b, idx)) => {
            assert_eq!(idx, 4);
            assert_eq!(b.as_slice(), &[0xde, 0xad, 0xbe, 0xef]);
        }
        Err(e) => panic!("error {:?}", e),
    }
}

#[test]
fn skip_past_the_end_fails() {
    let mut mem: Vec<u8> = vec![0; 8];
    match gen_skip((&mut mem, 5), 4) {
        Err(e) => assert_eq!(e, GenError::BufferTooSmall(9)),
        Ok(_) => panic!("skip past the end succeeded"),
    }
    match gen_skip((&mut mem, 5), 3) {
        Ok((_, idx)) => assert_eq!(idx, 8),
        Err(e) => panic!("error {:?}", e),
    }
}

#[test]
fn copy_checks_the_bound() {
    let mut mem: Vec<u8> = vec![0; 6];
    let v = [1, 2, 3, 4];
    match gen_copy((&mut mem, 3), &v, 4) {
        Err(e) => assert_eq!(e, GenError::BufferTooSmall(7)),
        Ok(_) => panic!("copy past the end succeeded"),
    }
    assert_eq!(mem, vec![0; 6]);
    match gen_copy((&mut mem, 2), &v, 4) {
        Ok((b, idx)) => {
            assert_eq!(idx, 6);
            assert_eq!(b.as_slice(), &[0, 0, 1, 2, 3, 4]);
        }
        Err(e) => panic!("error {:?}", e),
    }
    match gen_copy((&mut mem, 0), &v, 2) {
        Ok((b, idx)) => {
            assert_eq!(idx, 2);
            assert_eq!(b.as_slice(), &[1, 2, 1, 2, 3, 4]);
        }
        Err(e) => panic!("error {:?}", e),
    }
}

#[test]
fn align_twice_is_align_once() {
    let mut mem: Vec<u8> = vec![0; 16];
    let (b, idx) = gen_align((&mut mem, 5), 8).expect("first align");
    assert_eq!(idx, 8);
    let (_, idx2) = gen_align((b, idx), 8).expect("second align");
    assert_eq!(idx2, 8);
}

#[test]
fn align_at_capacity_and_past_it() {
    let mut mem: Vec<u8> = vec![0; 8];
    match gen_align((&mut mem, 8), 4) {
        Ok((_, idx)) => assert_eq!(idx, 8),
        Err(e) => panic!("error {:?}", e),
    }
    match gen_align((&mut mem, 6), 16) {
        Err(e) => assert_eq!(e, GenError::BufferTooSmall(16)),
        Ok(_) => panic!("align past the end succeeded"),
    }
    match gen_align((&mut mem, 3), 1) {
        Ok((_, idx)) => assert_eq!(idx, 3),
        Err(e) => panic!("error {:?}", e),
    }
}

#[test]
fn composition_stops_at_the_first_error() {
    let mut mem: Vec<u8> = vec![0; 4];
    let steps = [GenStep::BeU8(1), GenStep::Fail(7), GenStep::BeU8(9)];
    match do_gen((&mut mem, 0), &steps) {
        Err(e) => assert_eq!(e, GenError::CustomError(7)),
        Ok(_) => panic!("a failing step was passed over"),
    }
    assert_eq!(mem, vec![1, 0, 0, 0]);

    let steps = [GenStep::BeU8(1), GenStep::BeU32(0x0102_0304), GenStep::Fail(3)];
    match do_gen((&mut mem, 0), &steps) {
        Err(e) => assert_eq!(e, GenError::BufferTooSmall(5)),
        Ok(_) => panic!("a failing step was passed over"),
    }
    assert_eq!(mem, vec![1, 0, 0, 0]);
}

#[test]
fn composition_of_nothing_keeps_the_cursor() {
    let mut mem: Vec<u8> = vec![4; 3];
    match do_gen((&mut mem, 2), &[]) {
        Ok((b, idx)) => {
            assert_eq!(idx, 2);
            assert_eq!(b.as_slice(), &[4, 4, 4]);
        }
        Err(e) => panic!("error {:?}", e),
    }
}

#[test]
fn backpatch_placeholder_written_first() {
    let mut mem: Vec<u8> = vec![0; 8];
    let steps = [
        GenStep::BeU16(0),
        GenStep::Skip(6),
        GenStep::AdjustLength(Width::U16, 0, 0),
    ];
    match do_gen((&mut mem, 0), &steps) {
        Ok((b, idx)) => {
            assert_eq!(idx, 8);
            assert_eq!(b.as_slice(), &[0, 8, 0, 0, 0, 0, 0, 0]);
        }
        Err(e) => panic!("error {:?}", e),
    }
}

#[test]
fn backpatch_keeps_the_bytes_around_the_field() {
    let mut mem: Vec<u8> = vec![0xaa; 8];
    match gen_adjust_length((&mut mem, 7), 2, 3, Width::U24) {
        Ok((b, idx)) => {
            assert_eq!(idx, 7);
            assert_eq!(b.as_slice(), &[0xaa, 0xaa, 0xaa, 0, 0, 5, 0xaa, 0xaa]);
        }
        Err(e) => panic!("error {:?}", e),
    }
}

#[test]
fn backpatch_u16_overflow_is_refused() {
    let mut mem: Vec<u8> = vec![0; 70000];
    match gen_adjust_length_u16((&mut mem, 65536), 0, 0) {
        Err(e) => assert_eq!(e, GenError::InvalidOffset),
        Ok(_) => panic!("a length above 65535 was accepted"),
    }
    assert!(mem.iter().all(|&b| b == 0));
    match gen_adjust_length_u16((&mut mem, 65535), 0, 0) {
        Ok((b, idx)) => {
            assert_eq!(idx, 65535);
            assert_eq!(&b[0..3], &[0xff, 0xff, 0]);
        }
        Err(e) => panic!("error {:?}", e),
    }
}

#[test]
fn backpatch_u8_limit() {
    let mut mem: Vec<u8> = vec![0; 300];
    match gen_adjust_length((&mut mem, 256), 0, 0, Width::U8) {
        Err(e) => assert_eq!(e, GenError::InvalidOffset),
        Ok(_) => panic!("a length above 255 was accepted"),
    }
    match gen_adjust_length((&mut mem, 255), 0, 0, Width::U8) {
        Ok((b, _)) => assert_eq!(b[0], 0xff),
        Err(e) => panic!("error {:?}", e),
    }
}

#[test]
fn backpatch_field_past_the_end() {
    let mut mem: Vec<u8> = vec![0; 4];
    match gen_adjust_length((&mut mem, 4), 0, 2, Width::U32) {
        Err(e) => assert_eq!(e, GenError::BufferTooSmall(6)),
        Ok(_) => panic!("a field past the end was written"),
    }
    assert_eq!(mem, vec![0; 4]);
}

#[test]
fn many_stops_at_the_first_item_that_does_not_fit() {
    let mut mem: Vec<u8> = vec![0; 7];
    let v: Vec<u32> = vec![0x0102_0304, 0x0506_0708];
    match gen_many((&mut mem, 0), &v, Width::U32) {
        Err(e) => assert_eq!(e, GenError::BufferTooSmall(8)),
        Ok(_) => panic!("items past the end were written"),
    }
    assert_eq!(mem, vec![1, 2, 3, 4, 0, 0, 0]);
}

#[test]
fn many_with_three_byte_items() {
    let mut mem: Vec<u8> = vec![0; 6];
    let v: Vec<u32> = vec![0x0a0b0c, 0x0d0e0f];
    match gen_many((&mut mem, 0), &v, Width::U24) {
        Ok((b, idx)) => {
            assert_eq!(idx, 6);
            assert_eq!(b.as_slice(), &[0x0a, 0x0b, 0x0c, 0x0d, 0x0e, 0x0f]);
        }
        Err(e) => panic!("error {:?}", e),
    }
}

#[test]
fn cond_runs_only_when_true() {
    let mut mem: Vec<u8> = vec![0; 2];
    match gen_cond((&mut mem, 0), false, &GenStep::BeU8(5)) {
        Ok((b, idx)) => {
            assert_eq!(idx, 0);
            assert_eq!(b.as_slice(), &[0, 0]);
        }
        Err(e) => panic!("error {:?}", e),
    }
    match gen_cond((&mut mem, 0), true, &GenStep::BeU8(5)) {
        Ok((b, idx)) => {
            assert_eq!(idx, 1);
            assert_eq!(b.as_slice(), &[5, 0]);
        }
        Err(e) => panic!("error {:?}", e),
    }
}

#[test]
fn if_else_takes_one_branch() {
    let mut mem: Vec<u8> = vec![0; 4];
    match gen_if_else((&mut mem, 0), true, &GenStep::BeU16(0x0102), &GenStep::Fail(1)) {
        Ok((b, idx)) => {
            assert_eq!(idx, 2);
            assert_eq!(b.as_slice(), &[1, 2, 0, 0]);
        }
        Err(e) => panic!("error {:?}", e),
    }
    match gen_if_else((&mut mem, 2), false, &GenStep::Fail(1), &GenStep::Skip(2)) {
        Ok((_, idx)) => assert_eq!(idx, 4),
        Err(e) => panic!("error {:?}", e),
    }
    match gen_if_else((&mut mem, 2), false, &GenStep::Skip(2), &GenStep::Fail(9)) {
        Err(e) => assert_eq!(e, GenError::CustomError(9)),
        Ok(_) => panic!("the wrong branch ran"),
    }
}

#[test]
fn single_step_copy() {
    let mut mem: Vec<u8> = vec![0; 3];
    match gen_step((&mut mem, 1), &GenStep::Copy(vec![7, 8])) {
        Ok((b, idx)) => {
            assert_eq!(idx, 3);
            assert_eq!(b.as_slice(), &[0, 7, 8]);
        }
        Err(e) => panic!("error {:?}", e),
    }
}

#[test]
fn widths() {
    assert_eq!(Width::U8.nbytes(), 1);
    assert_eq!(Width::U24.nbytes(), 3);
    assert_eq!(Width::U16.max_value(), 0xffff);
    assert_eq!(Width::U24.max_value(), 0xff_ffff);
    assert_eq!(Width::U32.max_value(), 0xffff_ffff);
}
