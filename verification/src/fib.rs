//! The Fibonacci computation with saturating arithmetic.

use vstd::prelude::*;

verus! {

/// The Fibonacci sequence under the standard recurrence.
pub open spec fn spec_fib(n: nat) -> nat
    decreases n,
{
    if n == 0 {
        0
    } else if n == 1 {
        1
    } else {
        spec_fib((n - 2) as nat) + spec_fib((n - 1) as nat)
    }
}

/// A value clamped at the largest `u64`.
pub open spec fn sat64(x: nat) -> nat {
    if x > u64::MAX {
        u64::MAX as nat
    } else {
        x
    }
}

/// The Fibonacci value under saturating `u64` arithmetic: the true value
/// where it fits, and `u64::MAX` where it does not.
pub open spec fn spec_fib_sat(n: nat) -> nat {
    sat64(spec_fib(n))
}

/// The Fibonacci sequence never decreases from one index to the next.
pub proof fn lemma_fib_step_le(n: nat)
    ensures
        spec_fib(n) <= spec_fib(n + 1),
{
}

/// Every Fibonacci value past index zero is positive.
pub proof fn lemma_fib_pos(n: nat)
    requires
        n >= 1,
    ensures
        spec_fib(n) >= 1,
    decreases n,
{
    if n >= 2 {
        lemma_fib_pos((n - 1) as nat);
    }
}

/// The computation is a pure function of `n`: any two results obtained for
/// the same index are equal, since each equals `spec_fib_sat(n)`.
pub proof fn lemma_fibonacci_deterministic(n: nat, r1: nat, r2: nat)
    requires
        r1 == spec_fib_sat(n),
        r2 == spec_fib_sat(n),
    ensures
        r1 == r2,
{
}

/// Once the true Fibonacci value exceeds the numeric ceiling, the saturated
/// result is exactly `u64::MAX`, never a wrapped or partial value.
pub proof fn lemma_fibonacci_saturates(n: nat)
    requires
        spec_fib(n) > u64::MAX,
    ensures
        spec_fib_sat(n) == u64::MAX,
{
}

/// Iterative Fibonacci with saturating addition: returns the true value
/// clamped at `u64::MAX`.
pub fn fibonacci(n: u64) -> (r: u64)
    ensures
        r == spec_fib_sat(n as nat),
{
    if n == 0 {
        return 0;
    }
    let mut a: u64 = 0;
    let mut b: u64 = 1;
    let mut i: u64 = 1;
    while i < n
        invariant
            1 <= i <= n,
            a == sat64(spec_fib((i - 1) as nat)),
            b == sat64(spec_fib(i as nat)),
        decreases n - i,
    {
        let next = a.saturating_add(b);
        proof {
            lemma_fib_step_le((i - 1) as nat);
            lemma_fib_step_le(i as nat);
            if i >= 2 {
                lemma_fib_pos((i - 1) as nat);
            }
            assert(spec_fib((i + 1) as nat) == spec_fib((i - 1) as nat) + spec_fib(i as nat));
        }
        a = b;
        b = next;
        i = i + 1;
    }
    b
}

} // verus!
