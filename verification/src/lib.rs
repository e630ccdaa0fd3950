//! A minimal WebAssembly-style module: two exported arithmetic functions and
//! one named custom section.
//!
//! The two functions follow two's-complement 32-bit semantics: all arithmetic
//! wraps modulo 2^32 and never traps. The `wasm` module emits the bytes of a
//! wasm binary that carries the exported data blob in a custom section named
//! `test`, and provides a verified parser for reading such sections back.

use vstd::arithmetic::div_mod::{
    lemma_add_mod_noop_right, lemma_fundamental_div_mod_converse_mod, lemma_mod_sub_multiples_vanish,
};
use vstd::prelude::*;

pub mod wasm;

verus! {

/// The value of `x` reduced modulo 2^32 and reinterpreted as a signed
/// two's-complement 32-bit integer, as an unbounded integer in
/// `[-2^31, 2^31)`.
pub open spec fn wrap_i32(x: int) -> int {
    let m: int = x % 0x1_0000_0000;
    if m >= 0x8000_0000 {
        m - 0x1_0000_0000
    } else {
        m
    }
}

/// On arguments within one wrap of the 32-bit signed range, `wrap_i32` either
/// leaves the value alone or moves it by exactly 2^32 back into range.
pub proof fn lemma_wrap_i32_in_range(x: int)
    requires
        -0x1_0000_0000 <= x < 0x1_0000_0000,
    ensures
        -0x8000_0000 <= x < 0x8000_0000 ==> wrap_i32(x) == x,
        x >= 0x8000_0000 ==> wrap_i32(x) == x - 0x1_0000_0000,
        x < -0x8000_0000 ==> wrap_i32(x) == x + 0x1_0000_0000,
{
    if 0 <= x {
        lemma_fundamental_div_mod_converse_mod(x, 0x1_0000_0000, 0, x);
    } else {
        lemma_fundamental_div_mod_converse_mod(x, 0x1_0000_0000, -1, x + 0x1_0000_0000);
    }
}

/// Wrapping is a congruence for addition: a summand may be pre-wrapped
/// without changing the wrapped sum.
pub proof fn lemma_wrap_i32_add(c: int, d: int)
    ensures
        wrap_i32(c + wrap_i32(d)) == wrap_i32(c + d),
{
    let big: int = 0x1_0000_0000;
    let w: int = wrap_i32(d);
    lemma_add_mod_noop_right(c, d, big);
    if d % big >= 0x8000_0000 {
        assert(c + w == (c + d % big) - big);
        lemma_mod_sub_multiples_vanish(c + d % big, big);
    }
    assert((c + w) % big == (c + d) % big);
}

/// Returns the two's-complement 32-bit sum of its operands; overflow wraps
/// modulo 2^32 and does not trap.
pub fn add(a: i32, b: i32) -> (r: i32)
    ensures
        r as int == wrap_i32(a as int + b as int),
{
    proof {
        lemma_wrap_i32_in_range(a as int + b as int);
    }
    a.wrapping_add(b)
}

/// The value `mem_stuff` returns: 0 for non-positive arguments, otherwise
/// 10 times the argument, wrapped to a signed 32-bit integer.
pub open spec fn mem_stuff_value(arg: int) -> int {
    if arg <= 0 {
        0
    } else {
        wrap_i32(10 * arg)
    }
}

/// Runs two accumulators over a counting loop: the first pass adds 10 to one,
/// every later pass adds 10 to the other, and the wrapped sum of the two is
/// returned. The result is 0 for `arg <= 0` and `10 * arg` (wrapped to 32
/// bits) for `arg >= 1`.
pub fn mem_stuff(arg: i32) -> (r: i32)
    ensures
        r as int == mem_stuff_value(arg as int),
{
    let mut a: i32 = 0;
    let mut b: i32 = 0;

    let mut x: i32 = 0;
    while x < arg
        invariant
            0 <= x,
            x <= arg || x == 0,
            a as int == if x == 0 { 0int } else { 10int },
            b as int == if x <= 1 { 0int } else { wrap_i32(10 * (x - 1)) },
        decreases arg - x,
    {
        if x == 0 {
            a = a.wrapping_add(10);
        } else {
            proof {
                lemma_wrap_i32_in_range(b as int + 10);
                if x >= 2 {
                    lemma_wrap_i32_add(10, 10 * (x - 1));
                } else {
                    lemma_wrap_i32_in_range(10 * x as int);
                }
            }
            b = b.wrapping_add(10);
        }
        x += 1;
    }
    proof {
        lemma_wrap_i32_in_range(a as int + b as int);
        if x >= 2 {
            lemma_wrap_i32_add(10, 10 * (x - 1));
        } else if x == 1 {
            lemma_wrap_i32_in_range(10int);
        }
    }
    a.wrapping_add(b)
}

} // verus!
