//! Decision core of a tiling window manager: which windows to manage, in what
//! order, and where each of them goes on the screen.
use vstd::prelude::*;

pub mod arrange;
pub mod config;
pub mod layout;
pub mod message;
pub mod rect;
pub mod window;
pub mod windowmanager;

verus! {

/// Truncating division, as the machine performs it on signed integers
/// (`d` is taken to be positive).
pub open spec fn tdiv(a: int, d: int) -> int {
    if a >= 0 {
        a / d
    } else {
        -((-a) / d)
    }
}

/// Whether an unbounded integer can be held by an `i32`.
pub open spec fn fits_i32(x: int) -> bool {
    i32::MIN <= x <= i32::MAX
}

/// A multiple `p <= k` of `a / k` (truncated) stays between zero and `a`.
pub proof fn lemma_tdiv_mul_bound(a: int, k: int, p: int)
    requires
        k > 0,
        0 <= p <= k,
    ensures
        a >= 0 ==> 0 <= tdiv(a, k) * p <= a,
        a < 0 ==> a <= tdiv(a, k) * p <= 0,
{
    let m = if a >= 0 { a } else { -a };
    let q = m / k;
    vstd::arithmetic::div_mod::lemma_fundamental_div_mod(m, k);
    vstd::arithmetic::div_mod::lemma_mod_bound(m, k);
    vstd::arithmetic::div_mod::lemma_div_pos_is_pos(m, k);
    assert(0 <= q * p <= m) by (nonlinear_arith)
        requires
            q >= 0,
            0 <= p <= k,
            m == k * q + m % k,
            m % k >= 0,
    {}
    if a < 0 {
        assert(tdiv(a, k) * p == -(q * p)) by (nonlinear_arith)
            requires
                tdiv(a, k) == -q,
        {}
    }
}

/// An error carried up to the process entry point.
pub struct Error {
    pub message: String,
}

impl Error {
    /// An error with the given message.
    pub fn new(message: &str) -> (r: Error)
        ensures
            r.message@ == message@,
    {
        Error { message: message.to_string() }
    }

    /// The message, as text.
    pub fn message(&self) -> (r: String)
        ensures
            r@ == self.message@,
    {
        self.message.clone()
    }
}

} // verus!
