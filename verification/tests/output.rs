//! Tests of the plain-text serialization and the randomness wrappers.
use pathtracer::canvas::Canvas;
use pathtracer::colors::write_color_to_writer;
use pathtracer::fx::Fx;
use pathtracer::utils::{clamp, degrees_to_radians, random_double, random_int};
use pathtracer::vec3::Color;

const ONE: i64 = 65536;

#[test]
fn unit_accumulator_prints_full_white() {
    // an accumulator of (n, n, n) over n samples averages to 1.0 and must
    // quantize to 255 on every channel
    let n: usize = 7;
    let acc = Color::from(Fx(n as i64 * ONE), Fx(n as i64 * ONE), Fx(n as i64 * ONE));
    let mut out: Vec<u8> = Vec::new();
    write_color_to_writer(&mut out, acc, n);
    assert_eq!(out, b"255 255 255\n".to_vec());
}

#[test]
fn color_lines_quantize_with_gamma() {
    // an accumulator averaging to 0.25 gamma-corrects to 0.5: byte 128
    let acc = Color::from(Fx(ONE / 4), Fx(0), Fx(ONE));
    let mut out: Vec<u8> = Vec::new();
    write_color_to_writer(&mut out, acc, 1);
    assert_eq!(out, b"128 0 255\n".to_vec());
    // a negative accumulator clamps to zero
    let neg = Color::from(Fx(-ONE), Fx(0), Fx(0));
    let mut out2: Vec<u8> = Vec::new();
    write_color_to_writer(&mut out2, neg, 1);
    assert_eq!(out2, b"0 0 0\n".to_vec());
}

#[test]
fn header_and_pixels_serialize_bottom_up() {
    let f = |i: usize, j: usize| {
        // row 0 dark, row 1 bright: the bright row must come out first
        if j == 0 {
            Color::new()
        } else {
            Color::from(Fx(i as i64 * ONE + ONE), Fx(ONE), Fx(ONE))
        }
    };
    let c = Canvas::from_fn(2, 2, 1, f);
    let mut header: Vec<u8> = Vec::new();
    c.write_header_to_writer(&mut header);
    assert_eq!(header, b"P3\n2 2\n255\n".to_vec());
    let mut body: Vec<u8> = Vec::new();
    c.write_pixels_to_writer(&mut body);
    let text = String::from_utf8(body).expect("ascii output");
    let lines: Vec<&str> = text.lines().collect();
    assert_eq!(lines.len(), 4);
    // bottom row (j = 1) first: bright pixels, then the dark top row
    assert_eq!(lines[0], "255 255 255");
    assert_eq!(lines[1], "255 255 255");
    assert_eq!(lines[2], "0 0 0");
    assert_eq!(lines[3], "0 0 0");
}

#[test]
fn clamp_and_degree_conversion() {
    assert_eq!(clamp(Fx(5), Fx(0), Fx(3)).0, 3);
    assert_eq!(clamp(Fx(-5), Fx(0), Fx(3)).0, 0);
    assert_eq!(clamp(Fx(2), Fx(0), Fx(3)).0, 2);
    // 180 degrees is pi radians
    let pi = degrees_to_radians(Fx(180 * ONE));
    assert!((pi.0 - 205887).abs() <= 2, "pi raw = {}", pi.0);
    // 90 degrees is half of that
    let half = degrees_to_radians(Fx(90 * ONE));
    assert!((half.0 - 102943).abs() <= 2, "pi/2 raw = {}", half.0);
}

#[test]
fn random_double_samples_the_half_open_range() {
    let lo = Fx(-3 * ONE);
    let hi = Fx(5 * ONE);
    let mut distinct = false;
    let first = random_double(lo, hi);
    for _ in 0..100 {
        let x = random_double(lo, hi);
        assert!(lo.0 <= x.0 && x.0 < hi.0);
        if x.0 != first.0 {
            distinct = true;
        }
    }
    assert!(distinct, "a uniform sampler must not be constant");
}

#[test]
fn random_int_samples_the_half_open_range() {
    let mut distinct = false;
    let first = random_int(-4, 9);
    for _ in 0..100 {
        let x = random_int(-4, 9);
        assert!(-4 <= x && x < 9);
        if x != first {
            distinct = true;
        }
    }
    assert!(distinct, "a uniform sampler must not be constant");
}
