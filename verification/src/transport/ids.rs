//! Identifiers that a connection hands out: packet numbers and stream identifiers.
use vstd::prelude::*;

use crate::text::append_decimal;

verus! {

use crate::text::decimal;

/// The value of a counter of `modulus` values after `calls` more calls.
pub open spec fn counter_after(value: nat, calls: nat, modulus: nat) -> nat {
    (value + calls) % modulus
}

/// Takes the current value of a counter and moves the counter on, back to zero after the
/// largest value.
pub fn take_next(counter: &mut u32) -> (r: u32)
    ensures
        r == *old(counter),
        *final(counter) == counter_after(*old(counter) as nat, 1, 0x1_0000_0000),
{
    let r: u32 = *counter;
    *counter = r.wrapping_add(1);
    r
}

/// The identifier of a stream of fragments.
#[derive(Debug, Clone, Copy, PartialEq, Eq, Hash, Structural)]
pub struct StreamId(pub u32);

impl StreamId {
    /// The next identifier that `counter` gives out.
    pub fn next(counter: &mut u32) -> (r: Self)
        ensures
            r.0 == *old(counter),
            *final(counter) == counter_after(*old(counter) as nat, 1, 0x1_0000_0000),
    {
        StreamId(take_next(counter))
    }

    /// The identifier in base ten.
    pub fn to_string(&self) -> (r: String)
        ensures
            r@ == decimal(self.0 as nat),
    {
        let mut out: String = String::new();
        append_decimal(&mut out, self.0 as u64);
        assert(out@ =~= decimal(self.0 as nat));
        out
    }
}

/// Two calls on one counter give the same value only where a whole round of the counter lies
/// between them.
pub proof fn law_ids_repeat_only_after_a_round(start: nat, a: nat, b: nat, modulus: nat)
    requires
        modulus > 0,
        a < b,
        counter_after(start, a, modulus) == counter_after(start, b, modulus),
    ensures
        b - a >= modulus,
{
    let x = (start + a) as int;
    let y = (start + b) as int;
    let m = modulus as int;
    assert(b - a >= modulus) by (nonlinear_arith)
        requires
            m > 0,
            m == modulus as int,
            x == start + a,
            y == start + b,
            a < b,
            x % m == y % m,
    {
        assert(x == m * (x / m) + x % m);
        assert(y == m * (y / m) + y % m);
        assert(m * (y / m - x / m) == y - x);
        assert(y / m - x / m >= 1);
    }
}

} // verus!
