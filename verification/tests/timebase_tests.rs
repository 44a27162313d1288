use slideshow::timebase::{decode_time_base, encode_time_base, gcd_u32, output_time_base, rescale};
use slideshow::TimeBase;

#[test]
fn gcd_of_typical_delays() {
    assert_eq!(gcd_u32(100, 1000), 100);
    assert_eq!(gcd_u32(33, 1000), 1);
    assert_eq!(gcd_u32(1000, 1000), 1000);
    assert_eq!(gcd_u32(1, 1000), 1);
    assert_eq!(gcd_u32(250, 1000), 250);
}

#[test]
fn encode_time_base_is_reduced() {
    let tb = encode_time_base(100);
    assert_eq!(tb, TimeBase { num: 1, den: 10 });
    let tb = encode_time_base(33);
    assert_eq!(tb, TimeBase { num: 33, den: 1000 });
    let tb = encode_time_base(1);
    assert_eq!(tb, TimeBase { num: 1, den: 1000 });
    let tb = encode_time_base(250);
    assert_eq!(tb, TimeBase { num: 1, den: 4 });
}

#[test]
fn frame_rate_is_inverse_of_encode_time_base() {
    let tb = encode_time_base(100);
    let fps = tb.invert();
    assert_eq!(fps, TimeBase { num: 10, den: 1 });
}

#[test]
fn fixed_time_bases() {
    assert_eq!(decode_time_base(), TimeBase { num: 1, den: 1000 });
    assert_eq!(output_time_base(), TimeBase { num: 1, den: 90000 });
}

#[test]
fn rescale_milliseconds_into_encode_ticks() {
    let dec = decode_time_base();
    let enc = encode_time_base(100);
    assert_eq!(rescale(0, dec, enc), 0);
    assert_eq!(rescale(100, dec, enc), 1);
    assert_eq!(rescale(300, dec, enc), 3);
    // 150 ms is 1.5 ticks of 100 ms; ties round away from zero
    assert_eq!(rescale(150, dec, enc), 2);
    assert_eq!(rescale(149, dec, enc), 1);
    assert_eq!(rescale(50, dec, enc), 1);
    assert_eq!(rescale(49, dec, enc), 0);
}

#[test]
fn rescale_negative_values_round_away_from_zero() {
    let dec = decode_time_base();
    let enc = encode_time_base(100);
    assert_eq!(rescale(-100, dec, enc), -1);
    assert_eq!(rescale(-150, dec, enc), -2);
    assert_eq!(rescale(-49, dec, enc), 0);
}

#[test]
fn rescale_encode_ticks_into_container_ticks() {
    let enc = encode_time_base(100);
    let out = output_time_base();
    // one tick of 1/10 s is 9000 ticks of 1/90000 s
    assert_eq!(rescale(1, enc, out), 9000);
    assert_eq!(rescale(3, enc, out), 27000);
}
