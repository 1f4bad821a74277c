use pixelbits::{decode_channels, decode_group};

#[test]
fn value_of_128_is_a_set_bit() {
    assert_eq!(decode_group(&[128, 0, 0, 0, 0, 0, 0, 0]), 0b1000_0000);
}

#[test]
fn value_of_127_is_a_clear_bit() {
    assert_eq!(decode_group(&[127, 0, 0, 0, 0, 0, 0, 0]), 0);
}

#[test]
fn value_of_0_is_a_clear_bit() {
    assert_eq!(decode_group(&[0, 0, 0, 0, 0, 0, 0, 0]), 0);
}

#[test]
fn value_of_255_is_a_set_bit() {
    assert_eq!(decode_group(&[255, 0, 0, 0, 0, 0, 0, 0]), 0b1000_0000);
    assert_eq!(decode_group(&[255, 255, 255, 255, 255, 255, 255, 255]), 0xFF);
}

#[test]
fn threshold_at_every_position() {
    for position in 0..8 {
        let mut group = [127u8; 8];
        assert_eq!(decode_group(&group), 0);
        group[position] = 128;
        assert_eq!(decode_group(&group), 1 << (7 - position));
    }
}

#[test]
fn first_value_is_the_most_significant_bit() {
    assert_eq!(decode_group(&[255, 0, 0, 0, 0, 0, 0, 0]), 0x80);
    assert_eq!(decode_group(&[0, 0, 0, 0, 0, 0, 0, 255]), 0x01);
    assert_eq!(decode_group(&[0, 255, 0, 255, 0, 255, 0, 255]), 0x55);
}

#[test]
fn noisy_values_decode_by_their_side_of_the_threshold() {
    assert_eq!(decode_group(&[128, 127, 0, 255, 200, 3, 130, 126]), 0b1001_1010);
    assert_eq!(decode_channels(&[128, 127, 0, 255, 200, 3, 130, 126]), vec![0b1001_1010]);
}

#[test]
fn nothing_decodes_to_nothing() {
    assert_eq!(decode_channels(&[]), Vec::<u8>::new());
}

#[test]
fn less_than_a_group_decodes_to_nothing() {
    assert_eq!(decode_channels(&[255; 7]), Vec::<u8>::new());
    assert_eq!(decode_channels(&[255]), Vec::<u8>::new());
}

#[test]
fn trailing_values_are_dropped() {
    assert_eq!(decode_channels(&[255; 9]), vec![0xFF]);
    assert_eq!(decode_channels(&[255; 15]), vec![0xFF]);
    assert_eq!(decode_channels(&[255; 16]), vec![0xFF, 0xFF]);
    assert_eq!(decode_channels(&[255; 17]), vec![0xFF, 0xFF]);
}

#[test]
fn groups_decode_in_order() {
    let channels = [
        255, 0, 0, 0, 0, 0, 0, 0, 0, 0, 0, 0, 0, 0, 0, 255, 0, 255, 0, 255, 0, 255, 0, 255,
    ];
    assert_eq!(decode_channels(&channels), vec![0x80, 0x01, 0x55]);
}

#[test]
fn one_byte_for_every_eight_values() {
    for count in 0..50usize {
        let channels = vec![200u8; count];
        assert_eq!(decode_channels(&channels).len(), count / 8);
    }
}
