use string_ops::lane::{
    lane_is_ascii, load_lane, lower_lane, range_mask, select, store_lane, toggle_case,
    upper_lane, LANE_WIDTH,
};

#[test]
fn load_copies_the_lane_at_the_offset() {
    let buffer: Vec<u8> = (0..40u8).collect();
    let lane = load_lane(&buffer, 5);
    let expected: Vec<u8> = (5..21u8).collect();
    assert_eq!(lane.to_vec(), expected);
    let last = load_lane(&buffer, 40 - LANE_WIDTH);
    assert_eq!(last[0], 24);
    assert_eq!(last[15], 39);
}

#[test]
fn store_writes_the_lane_and_nothing_else() {
    let mut buffer = vec![0xeeu8; 20];
    let lane: [u8; LANE_WIDTH] = *b"0123456789abcdef";
    store_lane(&mut buffer, 3, &lane);
    assert_eq!(&buffer[..3], &[0xee, 0xee, 0xee]);
    assert_eq!(&buffer[3..19], &lane);
    assert_eq!(&buffer[19..], &[0xee]);
}

#[test]
fn range_mask_is_all_ones_inside_the_bounds() {
    let lane: [u8; LANE_WIDTH] = *b"@AZ[`az{ mM5\x00\x7f\xc3\xff";
    let mask = range_mask(&lane, 0x41, 0x5a);
    assert_eq!(
        mask,
        [0, 0xff, 0xff, 0, 0, 0, 0, 0, 0, 0, 0xff, 0, 0, 0, 0, 0]
    );
    let mask = range_mask(&lane, 0x61, 0x7a);
    assert_eq!(
        mask,
        [0, 0, 0, 0, 0, 0xff, 0xff, 0, 0, 0xff, 0, 0, 0, 0, 0, 0]
    );
}

#[test]
fn toggle_flips_the_case_bit_of_every_byte() {
    let lane: [u8; LANE_WIDTH] = *b"aA zZ\x00\x20\xff\xdf01[{\x7f\x5f~";
    let toggled = toggle_case(&lane);
    for k in 0..LANE_WIDTH {
        assert_eq!(toggled[k], lane[k] ^ 0x20);
    }
    assert_eq!(toggled[0], b'A');
    assert_eq!(toggled[1], b'a');
    assert_eq!(toggled[5], 0x20);
    assert_eq!(toggled[7], 0xdf);
}

#[test]
fn select_takes_on_under_a_set_mask_and_off_under_a_clear_one() {
    let on = [0x11u8; LANE_WIDTH];
    let off = [0x22u8; LANE_WIDTH];
    let mut mask = [0u8; LANE_WIDTH];
    for k in (0..LANE_WIDTH).step_by(2) {
        mask[k] = 0xff;
    }
    let out = select(&mask, &on, &off);
    for k in 0..LANE_WIDTH {
        assert_eq!(out[k], if k % 2 == 0 { 0x11 } else { 0x22 });
    }
    let mixed = select(&[0x0f; LANE_WIDTH], &[0xab; LANE_WIDTH], &[0xcd; LANE_WIDTH]);
    assert_eq!(mixed, [0xcb; LANE_WIDTH]);
}

#[test]
fn upper_lane_and_lower_lane_map_letters_only() {
    let lane: [u8; LANE_WIDTH] = *b"Hello, World! \xc3\xa9";
    assert_eq!(&upper_lane(&lane), b"HELLO, WORLD! \xc3\xa9");
    assert_eq!(&lower_lane(&lane), b"hello, world! \xc3\xa9");
    let edges: [u8; LANE_WIDTH] = *b"@AZ[`az{@AZ[`az{";
    assert_eq!(&upper_lane(&edges), b"@AZ[`AZ{@AZ[`AZ{");
    assert_eq!(&lower_lane(&edges), b"@az[`az{@az[`az{");
}

#[test]
fn lane_is_ascii_sees_a_single_high_byte() {
    assert!(lane_is_ascii(b"0123456789abcdef"));
    assert!(lane_is_ascii(&[0x7f; LANE_WIDTH]));
    assert!(lane_is_ascii(&[0x00; LANE_WIDTH]));
    for k in 0..LANE_WIDTH {
        let mut lane = [0x41u8; LANE_WIDTH];
        lane[k] = 0x80;
        assert!(!lane_is_ascii(&lane), "position {k}");
    }
    assert!(!lane_is_ascii(&[0xff; LANE_WIDTH]));
}
