//! Tests for the two exported arithmetic functions: two's-complement 32-bit
//! semantics, wrapping on overflow.

/// The expected value of wrapping 32-bit arithmetic, computed independently:
/// the sum modulo 2^32, reinterpreted as signed.
fn wrap32(x: i64) -> i32 {
    let m = x.rem_euclid(1i64 << 32);
    if m >= 1i64 << 31 {
        (m - (1i64 << 32)) as i32
    } else {
        m as i32
    }
}

#[test]
fn add_small() {
    assert_eq!(simple::add(2, 3), 5);
}

#[test]
fn add_wraps_at_max() {
    assert_eq!(simple::add(2147483647, 1), -2147483648);
}

#[test]
fn add_wraps_at_min() {
    assert_eq!(simple::add(-2147483648, -1), 2147483647);
}

#[test]
fn add_matches_mod_2_32() {
    let samples: [i32; 8] = [
        0,
        1,
        -1,
        41,
        -58,
        2147483647,
        -2147483648,
        1234567890,
    ];
    for &a in samples.iter() {
        for &b in samples.iter() {
            assert_eq!(simple::add(a, b), wrap32(a as i64 + b as i64));
        }
    }
}

#[test]
fn mem_stuff_zero() {
    assert_eq!(simple::mem_stuff(0), 0);
}

#[test]
fn mem_stuff_negative() {
    assert_eq!(simple::mem_stuff(-1), 0);
    assert_eq!(simple::mem_stuff(-2147483648), 0);
}

#[test]
fn mem_stuff_one() {
    assert_eq!(simple::mem_stuff(1), 10);
}

#[test]
fn mem_stuff_five() {
    assert_eq!(simple::mem_stuff(5), 50);
}

#[test]
fn mem_stuff_is_ten_times_arg() {
    let samples: [i32; 5] = [2, 3, 17, 1000, 100000];
    for &arg in samples.iter() {
        assert_eq!(simple::mem_stuff(arg), wrap32(10 * arg as i64));
    }
}

#[test]
fn mem_stuff_wraps_large_arg() {
    // 10 * 300000000 exceeds i32::MAX and wraps to a negative value.
    assert_eq!(simple::mem_stuff(300000000), wrap32(3000000000));
    assert_eq!(simple::mem_stuff(300000000), -1294967296);
    // 10 * 1000000000 wraps past 2^32 back to a positive value.
    assert_eq!(simple::mem_stuff(1000000000), 1410065408);
}
