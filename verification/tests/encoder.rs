use pixelbits::{
    can_encode, encode_channels, pixel_at, pixel_count, Pixel, BIT_HIGH_VALUE,
    BIT_HIGH_VALUE_THRESHOLD,
};

#[test]
fn levels() {
    assert_eq!(BIT_HIGH_VALUE, 255);
    assert_eq!(BIT_HIGH_VALUE_THRESHOLD, 127);
}

#[test]
fn width_is_the_bit_count_over_three_rounded_up() {
    assert_eq!(pixel_count(0), 0);
    assert_eq!(pixel_count(1), 3);
    assert_eq!(pixel_count(2), 6);
    assert_eq!(pixel_count(3), 8);
    assert_eq!(pixel_count(4), 11);
    assert_eq!(pixel_count(5), 14);
    assert_eq!(pixel_count(6), 16);
    assert_eq!(pixel_count(100), 267);
    assert_eq!(pixel_count(3_000_000), 8_000_000);
}

#[test]
fn small_inputs_can_be_encoded() {
    assert!(can_encode(0));
    assert!(can_encode(1));
    assert!(can_encode(1_000_000));
}

#[test]
fn huge_inputs_cannot_be_encoded() {
    assert!(!can_encode(usize::MAX));
    assert!(!can_encode(usize::MAX / 2));
}

#[test]
fn widest_image_that_can_be_encoded() {
    if usize::BITS == 64 {
        assert!(can_encode(1_610_612_735));
        assert!(!can_encode(1_610_612_736));
    } else {
        assert!(can_encode(536_870_911));
        assert!(!can_encode(536_870_912));
    }
}

#[test]
fn alternating_byte_gives_three_pixels() {
    let bytes = [0b0101_0101u8];
    assert_eq!(pixel_count(bytes.len()), 3);
    assert_eq!(pixel_at(0, &bytes), Pixel { r: 0, g: 255, b: 0 });
    assert_eq!(pixel_at(1, &bytes), Pixel { r: 255, g: 0, b: 255 });
    assert_eq!(pixel_at(2, &bytes), Pixel { r: 0, g: 255, b: 0 });
}

#[test]
fn pixel_past_the_bits_is_black() {
    assert_eq!(pixel_at(3, &[0xFF]), Pixel { r: 0, g: 0, b: 0 });
    assert_eq!(pixel_at(0, &[]), Pixel { r: 0, g: 0, b: 0 });
}

#[test]
fn last_pixel_is_padded_with_zero() {
    assert_eq!(pixel_at(2, &[0xFF]), Pixel { r: 255, g: 255, b: 0 });
    assert_eq!(pixel_at(5, &[0xFF, 0xFF]), Pixel { r: 255, g: 0, b: 0 });
}

#[test]
fn channels_of_a_full_byte() {
    assert_eq!(
        encode_channels(&[0xFF]),
        vec![255, 255, 255, 255, 255, 255, 255, 255, 0]
    );
}

#[test]
fn channels_of_an_alternating_byte() {
    assert_eq!(
        encode_channels(&[0x55]),
        vec![0, 255, 0, 255, 0, 255, 0, 255, 0]
    );
}

#[test]
fn channels_of_two_bytes() {
    assert_eq!(
        encode_channels(&[0x80, 0x01]),
        vec![255, 0, 0, 0, 0, 0, 0, 0, 0, 0, 0, 0, 0, 0, 0, 255, 0, 0]
    );
}

#[test]
fn three_bytes_fill_eight_pixels_without_padding() {
    let channels = encode_channels(&[0xF0, 0x0F, 0xAA]);
    assert_eq!(
        channels,
        vec![
            255, 255, 255, 255, 0, 0, 0, 0, 0, 0, 0, 0, 255, 255, 255, 255, 255, 0, 255, 0, 255,
            0, 255, 0
        ]
    );
}

#[test]
fn channels_of_nothing() {
    assert_eq!(encode_channels(&[]), Vec::<u8>::new());
}

#[test]
fn channels_are_three_per_pixel() {
    for count in 0..40usize {
        let bytes = vec![0xA5u8; count];
        assert_eq!(encode_channels(&bytes).len(), 3 * pixel_count(count));
    }
}

#[test]
fn channels_agree_with_pixels() {
    let bytes = [0x12u8, 0x34, 0x56, 0x78, 0x9A];
    let channels = encode_channels(&bytes);
    for x in 0..pixel_count(bytes.len()) {
        let pixel = pixel_at(x, &bytes);
        assert_eq!(channels[3 * x], pixel.r);
        assert_eq!(channels[3 * x + 1], pixel.g);
        assert_eq!(channels[3 * x + 2], pixel.b);
    }
}

#[test]
fn padding_is_shorter_than_a_pixel_and_zero() {
    for count in 0..40usize {
        let bytes = vec![0xFFu8; count];
        let channels = encode_channels(&bytes);
        let padding = channels.len() - 8 * count;
        assert!(padding < 3);
        assert!(channels[..8 * count].iter().all(|value| *value == 255));
        assert!(channels[8 * count..].iter().all(|value| *value == 0));
    }
}

#[test]
fn same_bytes_give_the_same_channels() {
    let bytes = b"the same bytes twice";
    assert_eq!(encode_channels(bytes), encode_channels(bytes));
}
