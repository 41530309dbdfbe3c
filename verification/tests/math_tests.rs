use adan::native::http::HTTP;
use adan::stdlib::io::clone_path;
use adan::stdlib::math::{Algebraic, General, Pow, Random};

#[test]
fn greatest_common_divisors() {
    assert_eq!(General::gcd(12, 18), 6);
    assert_eq!(General::gcd(18, 12), 6);
    assert_eq!(General::gcd(17, 5), 1);
    assert_eq!(General::gcd(0, 5), 5);
    assert_eq!(General::gcd(5, 0), 5);
    assert_eq!(General::gcd(0, 0), 0);
    assert_eq!(General::gcd(u64::MAX, u64::MAX), u64::MAX);
}

#[test]
fn least_common_multiples() {
    assert_eq!(General::lcm(4, 6), 12);
    assert_eq!(General::lcm(6, 4), 12);
    assert_eq!(General::lcm(7, 13), 91);
    assert_eq!(General::lcm(0, 3), 0);
    assert_eq!(General::lcm(5, 5), 5);
}

#[test]
fn factorials() {
    assert_eq!(General::fact(0), 1);
    assert_eq!(General::fact(1), 1);
    assert_eq!(General::fact(5), 120);
    assert_eq!(General::fact(20), 2432902008176640000);
}

#[test]
fn powers() {
    assert_eq!(Algebraic::pow(2, 10), 1024);
    assert_eq!(Algebraic::pow(-2, 3), -8);
    assert_eq!(Algebraic::pow(7, 0), 1);
    assert_eq!(Algebraic::pow(0, 0), 1);
    assert_eq!(Algebraic::pow(2, 30), 1073741824);
    assert_eq!(Pow::pow(3, 4), 81);
    // The exponent is read as unsigned: -1 is 4294967295, an odd number.
    assert_eq!(Algebraic::pow(-1, -1), -1);
    assert_eq!(Algebraic::pow(1, -5), 1);
}

#[test]
fn squares_and_cubes() {
    assert_eq!(Algebraic::square(-4), 16);
    assert_eq!(Algebraic::square(0), 0);
    assert_eq!(Algebraic::square(46340), 2147395600);
    assert_eq!(Algebraic::cube(-3), -27);
    assert_eq!(Algebraic::cube(1290), 2146689000);
}

#[test]
fn absolute_values() {
    assert_eq!(Algebraic::abs(-5), 5);
    assert_eq!(Algebraic::abs(5), 5);
    assert_eq!(Algebraic::abs(0), 0);
    assert_eq!(Algebraic::abs(i32::MIN + 1), i32::MAX);
}

#[test]
fn random_numbers_lie_in_their_range() {
    assert_eq!(Random::random_range_isize(3, 3), 3);
    let mut seen = [false; 6];
    for _ in 0..600 {
        let n = Random::random_range_isize(1, 6);
        assert!((1..=6).contains(&n));
        seen[(n - 1) as usize] = true;
    }
    assert!(seen.iter().all(|s| *s));
    let n = Random::random_range_isize(i32::MIN, i32::MAX);
    assert!(i32::MIN <= n);
}

#[test]
fn copies_are_named_with_a_suffix() {
    assert_eq!(clone_path("notes.txt"), "notes.txt_clone");
    assert_eq!(clone_path(""), "_clone");
    assert_eq!(clone_path("a/b"), "a/b_clone");
}

#[test]
fn synchronous_requests_do_nothing_yet() {
    HTTP::get_sync("http://localhost/");
    HTTP::post_sync("http://localhost/");
}
