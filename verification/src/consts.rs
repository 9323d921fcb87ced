use vstd::prelude::*;

verus! {

/// A size in bytes, given in a unit: each unit is 1024 of the one before.
#[derive(Clone, Copy, Debug, PartialEq, Eq, Structural)]
pub enum LogSize {
    B(usize),
    KB(usize),
    MB(usize),
    GB(usize),
    TB(usize),
    EB(usize),
}

/// `x` times 1024 to the power `k`.
pub open spec fn scaled(x: int, k: nat) -> int
    decreases k,
{
    if k == 0 {
        x
    } else {
        scaled(x, (k - 1) as nat) * 1024
    }
}

proof fn lemma_scaled_monotone(x: int, k: nat, m: nat)
    requires
        0 <= x,
        k <= m,
    ensures
        0 <= scaled(x, k) <= scaled(x, m),
    decreases m,
{
    if k < m {
        lemma_scaled_monotone(x, k, (m - 1) as nat);
        let s = scaled(x, (m - 1) as nat);
        assert(s <= s * 1024) by (nonlinear_arith)
            requires
                0 <= s,
        ;
    } else if k > 0 {
        lemma_scaled_monotone(x, (k - 1) as nat, (k - 1) as nat);
        let s = scaled(x, (k - 1) as nat);
        assert(0 <= s * 1024) by (nonlinear_arith)
            requires
                0 <= s,
        ;
    }
}

/// `x` times 1024 `k` times over, each step checked against overflow.
fn scale(x: usize, k: u32) -> (r: usize)
    requires
        scaled(x as int, k as nat) <= usize::MAX,
    ensures
        r == scaled(x as int, k as nat),
{
    let mut r = x;
    let mut i: u32 = 0;
    while i < k
        invariant
            i <= k,
            r == scaled(x as int, i as nat),
            scaled(x as int, k as nat) <= usize::MAX,
        decreases k - i,
    {
        proof {
            lemma_scaled_monotone(x as int, (i + 1) as nat, k as nat);
        }
        r = r * 1024;
        i = i + 1;
    }
    r
}

impl LogSize {
    /// The size in bytes.
    pub open spec fn spec_len(&self) -> int {
        match *self {
            LogSize::B(n) => scaled(n as int, 0),
            LogSize::KB(n) => scaled(n as int, 1),
            LogSize::MB(n) => scaled(n as int, 2),
            LogSize::GB(n) => scaled(n as int, 3),
            LogSize::TB(n) => scaled(n as int, 4),
            LogSize::EB(n) => scaled(n as int, 6),
        }
    }

    /// The size in bytes, which must fit in a `usize`.
    pub fn len(&self) -> (r: usize)
        requires
            self.spec_len() <= usize::MAX,
        ensures
            r == self.spec_len(),
    {
        match *self {
            LogSize::B(n) => scale(n, 0),
            LogSize::KB(n) => scale(n, 1),
            LogSize::MB(n) => scale(n, 2),
            LogSize::GB(n) => scale(n, 3),
            LogSize::TB(n) => scale(n, 4),
            LogSize::EB(n) => scale(n, 6),
        }
    }
}

} // verus!
