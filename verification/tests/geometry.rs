//! Checks of the fixed-point direction math and of the shader-build
//! decision core.

use bytepath::render::{create_shader_program, ShaderBuild};
use bytepath::systems::screen_out_of_bounds_test;
use bytepath::trig::{acos_uturn, cos_uturn, forward, isqrt, sin_uturn};

#[test]
fn sine_and_cosine_hit_the_cardinal_points() {
    assert_eq!(sin_uturn(0), 0);
    assert_eq!(sin_uturn(250_000), 1_000_000);
    assert_eq!(sin_uturn(500_000), 0);
    assert_eq!(sin_uturn(750_000), -1_000_000);
    assert_eq!(cos_uturn(0), 1_000_000);
    assert_eq!(cos_uturn(250_000), 0);
    assert_eq!(cos_uturn(500_000), -1_000_000);
    assert_eq!(cos_uturn(750_000), 0);
}

#[test]
fn forward_points_up_at_heading_zero() {
    assert_eq!(forward(0), (0, 1_000_000));
    assert_eq!(forward(250_000), (-1_000_000, 0));
}

#[test]
fn integer_square_root_brackets_its_argument() {
    assert_eq!(isqrt(0), 0);
    assert_eq!(isqrt(15), 3);
    assert_eq!(isqrt(16), 4);
    assert_eq!(isqrt(1_000_000_000_000), 1_000_000);
    let r = isqrt(123_456_789_123) as u128;
    assert!(r * r <= 123_456_789_123);
    assert!((r + 1) * (r + 1) > 123_456_789_123);
}

#[test]
fn arc_cosine_inverts_the_cosine_stepwise() {
    assert_eq!(acos_uturn(1_000_000), 0);
    assert_eq!(acos_uturn(-1_000_000), 500_000);
    for &c in &[0i64, 500_000, -500_000, 123_456] {
        let a = acos_uturn(c);
        assert!(0 <= a && a <= 500_000);
        assert!(cos_uturn(a) >= c);
        if a < 500_000 {
            assert!(cos_uturn(a + 1) < c);
        }
    }
}

#[test]
fn boundary_test_honours_the_margin() {
    assert!(!screen_out_of_bounds_test(0, 0, None));
    assert!(screen_out_of_bounds_test(-1, 0, None));
    assert!(!screen_out_of_bounds_test(-1, 0, Some(8_000_000)));
    assert!(screen_out_of_bounds_test(-8_000_001, 0, Some(8_000_000)));
    assert!(screen_out_of_bounds_test(480_000_001, 0, None));
    assert!(screen_out_of_bounds_test(0, 270_000_001, None));
}

#[test]
fn shader_build_walks_the_happy_path() {
    let s = ShaderBuild::NeedVertex;
    let s = create_shader_program(s, Ok(11));
    let s = create_shader_program(s, Ok(12));
    let s = create_shader_program(s, Ok(13));
    match s {
        ShaderBuild::Built { program } => assert_eq!(program, 13),
        _ => panic!("build should have finished"),
    }
}

#[test]
fn shader_build_keeps_the_first_failure() {
    let s = ShaderBuild::NeedVertex;
    let s = create_shader_program(s, Ok(11));
    let s = create_shader_program(s, Err(String::from("bad fragment")));
    match &s {
        ShaderBuild::Failed { log } => assert_eq!(log, "bad fragment"),
        _ => panic!("build should have failed"),
    }
    // Further outcomes are ignored.
    let s = create_shader_program(s, Ok(99));
    match s {
        ShaderBuild::Failed { log } => assert_eq!(log, "bad fragment"),
        _ => panic!("failure should be final"),
    }
}
