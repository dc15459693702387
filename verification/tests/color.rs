use text_pipeline::color::quantize;
use text_pipeline::color::to_color;

/// The byte of a channel, by the same rule in double precision: the
/// product of a single and 255 is exact there.
fn reference(channel: f32) -> u8 {
    if channel.is_nan() || channel.is_sign_negative() {
        return 0;
    }
    let nearest = (f64::from(channel) * 255.0 + 0.5).floor();
    if nearest >= 255.0 {
        255
    } else {
        nearest as u8
    }
}

fn byte_of(channel: f32) -> u8 {
    quantize(channel.to_bits())
}

#[test]
fn full_channel_is_255() {
    assert_eq!(byte_of(1.0), 255);
    assert_eq!(quantize(0x3f80_0000), 255);
}

#[test]
fn empty_channel_is_0() {
    assert_eq!(byte_of(0.0), 0);
    assert_eq!(quantize(0), 0);
}

#[test]
fn half_channel_rounds_up_to_128() {
    assert_eq!(byte_of(0.5), 128);
    assert_eq!(quantize(0x3f00_0000), 128);
}

#[test]
fn channels_round_to_the_nearest_byte() {
    assert_eq!(byte_of(0.25), 64); // 63.75
    assert_eq!(byte_of(0.75), 191); // 191.25
    assert_eq!(byte_of(0.1), 26); // just above 25.5
    assert_eq!(byte_of(0.2), 51);
    assert_eq!(byte_of(1.0 / 255.0), 1);
    assert_eq!(byte_of(254.0 / 255.0), 254);
    assert_eq!(byte_of(0.002), 1); // 0.51
    assert_eq!(byte_of(0.0019), 0); // 0.4845
}

#[test]
fn a_channel_just_below_a_half_step_rounds_down() {
    // The single nearest to 0.7 lies below it, so 255 times it lies below 178.5.
    assert!(f64::from(0.7f32) * 255.0 < 178.5);
    assert_eq!(byte_of(0.7), 178);
    // The first value whose product reaches 0.5, and the one before it.
    let half_step = 0.5f32 / 255.0;
    assert!(f64::from(half_step) * 255.0 >= 0.5);
    assert_eq!(byte_of(half_step), 1);
    assert_eq!(quantize(half_step.to_bits() - 1), 0);
}

#[test]
fn channels_outside_the_unit_range_are_clamped() {
    assert_eq!(byte_of(2.0), 255);
    assert_eq!(byte_of(1.0e30), 255);
    assert_eq!(byte_of(f32::MAX), 255);
    assert_eq!(byte_of(f32::INFINITY), 255);
    assert_eq!(byte_of(-0.0), 0);
    assert_eq!(byte_of(-0.5), 0);
    assert_eq!(byte_of(-1.0e30), 0);
    assert_eq!(byte_of(f32::NEG_INFINITY), 0);
}

#[test]
fn not_a_number_is_0() {
    assert_eq!(byte_of(f32::NAN), 0);
    assert_eq!(quantize(0x7fc0_0001), 0);
    assert_eq!(quantize(0x7f80_0001), 0);
    assert_eq!(quantize(0xffc0_0000), 0);
}

#[test]
fn tiny_channels_are_0() {
    assert_eq!(quantize(1), 0); // the smallest subnormal
    assert_eq!(byte_of(f32::MIN_POSITIVE), 0);
    assert_eq!(byte_of(1.0e-10), 0);
}

#[test]
fn largest_channel_below_one_is_255() {
    assert_eq!(quantize(0x3f7f_ffff), 255);
}

#[test]
fn agrees_with_exact_rounding_across_the_unit_range() {
    for i in 0..=10_000u32 {
        let channel = i as f32 / 10_000.0;
        assert_eq!(byte_of(channel), reference(channel), "channel {}", channel);
    }
}

#[test]
fn agrees_with_exact_rounding_across_bit_patterns() {
    let mut bits: u32 = 0;
    loop {
        let channel = f32::from_bits(bits);
        assert_eq!(quantize(bits), reference(channel), "bits {:#x}", bits);
        match bits.checked_add(0x0001_0f3b) {
            Some(next) => bits = next,
            None => break,
        }
    }
}

#[test]
fn color_packs_alpha_red_green_blue() {
    let color = to_color(
        1.0f32.to_bits(),
        0.5f32.to_bits(),
        0.0f32.to_bits(),
        0.25f32.to_bits(),
    );
    assert_eq!(color.0, 0x40ff_8000);
    assert_eq!(color, glyphon::Color::rgba(255, 128, 0, 64));
    assert_eq!((color.r(), color.g(), color.b(), color.a()), (255, 128, 0, 64));
}

#[test]
fn opaque_white_and_clear_black() {
    let one = 1.0f32.to_bits();
    let zero = 0.0f32.to_bits();
    assert_eq!(to_color(one, one, one, one).0, 0xffff_ffff);
    assert_eq!(to_color(zero, zero, zero, zero).0, 0);
}
