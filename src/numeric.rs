use vstd::prelude::*;
use vstd::std_specs::iter::IteratorSpec;

verus! {

/// `n!`, over the integers.
pub open spec fn fact(n: nat) -> nat
    decreases n,
{
    if n == 0 {
        1
    } else {
        n * fact((n - 1) as nat)
    }
}

/// Computes `a!`; the result must fit in a `u32`.
pub fn factorial(a: u32) -> (r: u32)
    requires
        fact(a as nat) <= u32::MAX,
    ensures
        r == fact(a as nat),
    decreases a,
{
    if a == 0 {
        1
    } else {
        proof {
            lemma_fact_monotone((a - 1) as nat, a as nat);
            lemma_fact_positive((a - 1) as nat);
        }
        let p = factorial(a - 1);
        assert(p * a == fact(a as nat)) by (nonlinear_arith)
            requires p == fact((a - 1) as nat), a > 0, fact(a as nat) == a * fact((a - 1) as nat);
        p * a
    }
}

proof fn lemma_fact_positive(n: nat)
    ensures
        fact(n) >= 1,
    decreases n,
{
    if n > 0 {
        lemma_fact_positive((n - 1) as nat);
        assert(n * fact((n - 1) as nat) >= 1) by (nonlinear_arith)
            requires n >= 1, fact((n - 1) as nat) >= 1;
    }
}

proof fn lemma_fact_monotone(m: nat, n: nat)
    requires
        m <= n,
    ensures
        fact(m) <= fact(n),
    decreases n,
{
    if m < n {
        lemma_fact_monotone(m, (n - 1) as nat);
        lemma_fact_positive((n - 1) as nat);
        assert(fact((n - 1) as nat) <= n * fact((n - 1) as nat)) by (nonlinear_arith)
            requires n >= 1, fact((n - 1) as nat) >= 1;
    }
}

/// What the Luhn checksum adds for digit `d`: the digit itself, or, on every
/// second digit from the right, its double with 9 taken off when it exceeds 9.
pub open spec fn luhn_term(d: nat, doubled: bool) -> nat {
    if !doubled {
        d
    } else if 2 * d > 9 {
        (2 * d - 9) as nat
    } else {
        2 * d
    }
}

/// The Luhn sum of the decimal digits of `n`, from the right, where the
/// rightmost digit is doubled when `doubled` holds.
pub open spec fn luhn_sum(n: nat, doubled: bool) -> nat
    decreases n,
{
    if n == 0 {
        0
    } else {
        luhn_term(n % 10, doubled) + luhn_sum(n / 10, !doubled)
    }
}

/// Whether `num` passes the Luhn check. Single-digit numbers pass.
pub fn luhn_algorithm(num: u64) -> (r: bool)
    ensures
        r == (num < 10 || luhn_sum(num as nat, false) % 10 == 0),
{
    if num < 10 {
        return true;
    }
    // The sum is kept modulo 10, which is all the check looks at.
    let mut sum: u64 = 0;
    let mut doubled = false;
    let mut n = num;
    while n > 0
        invariant
            sum < 10,
            (sum + luhn_sum(n as nat, doubled)) % 10 == luhn_sum(num as nat, false) % 10,
        decreases n,
    {
        let mut digit = n % 10;
        if doubled {
            digit = digit * 2;
            if digit > 9 {
                digit = digit - 9;
            }
        }
        proof {
            let rest = luhn_sum((n / 10) as nat, !doubled);
            assert(digit == luhn_term((n % 10) as nat, doubled));
            vstd::arithmetic::div_mod::lemma_add_mod_noop((sum + digit) as int, rest as int, 10);
            vstd::arithmetic::div_mod::lemma_mod_twice((sum + digit) as int, 10);
            vstd::arithmetic::div_mod::lemma_add_mod_noop(((sum + digit) % 10) as int, rest as int, 10);
        }
        sum = (sum + digit) % 10;
        n = n / 10;
        doubled = !doubled;
    }
    sum == 0
}

/// The Fibonacci numbers, from `fib(0) == 0`.
pub open spec fn fib(n: nat) -> nat
    decreases n,
{
    if n == 0 {
        0
    } else if n == 1 {
        1
    } else {
        fib((n - 2) as nat) + fib((n - 1) as nat)
    }
}

proof fn lemma_fib_monotone(m: nat, n: nat)
    requires
        m <= n,
    ensures
        fib(m) <= fib(n),
    decreases n,
{
    if m < n {
        lemma_fib_monotone(m, (n - 1) as nat);
    }
}

/// The Fibonacci numbers in order, one per call of `next`.
pub struct Fibonacci {
    a: u64,
    b: u64,
    pos: Ghost<nat>,
}

impl Fibonacci {
    /// The position of the number that `next` returns next.
    pub closed spec fn position(&self) -> nat {
        self.pos@
    }

    pub closed spec fn wf(&self) -> bool {
        self.a == fib(self.pos@) && self.b == fib(self.pos@ + 1)
    }

    /// Returns the next Fibonacci number; the one after it must fit in a `u64`.
    pub fn next(&mut self) -> (r: Option<u64>)
        requires
            old(self).wf(),
            fib((old(self).position() + 2) as nat) <= u64::MAX,
        ensures
            final(self).wf(),
            final(self).position() == old(self).position() + 1,
            r == Some(fib(old(self).position()) as u64),
    {
        let value = self.a;
        let following = self.a + self.b;
        self.a = self.b;
        self.b = following;
        self.pos = Ghost(self.pos@ + 1);
        Some(value)
    }

    /// Skips `n` numbers and returns the one after them.
    pub fn nth(&mut self, n: usize) -> (r: Option<u64>)
        requires
            old(self).wf(),
            fib((old(self).position() + n + 2) as nat) <= u64::MAX,
        ensures
            final(self).wf(),
            final(self).position() == old(self).position() + n + 1,
            r == Some(fib((old(self).position() + n) as nat) as u64),
    {
        let mut i: usize = 0;
        while i < n
            invariant
                self.wf(),
                i <= n,
                self.position() == old(self).position() + i,
                fib((old(self).position() + n + 2) as nat) <= u64::MAX,
            decreases n - i,
        {
            proof {
                lemma_fib_monotone(self.position() + 2, (old(self).position() + n + 2) as nat);
            }
            self.next();
            i = i + 1;
        }
        self.next()
    }

    /// The next `n` Fibonacci numbers, in order.
    pub fn take(self, n: usize) -> (it: std::vec::IntoIter<u64>)
        requires
            self.wf(),
            fib((self.position() + n + 1) as nat) <= u64::MAX,
        ensures
            it.remaining().len() == n,
            forall|i: int| 0 <= i < n ==> it.remaining()[i] == fib((self.position() + i) as nat),
    {
        let mut this = self;
        let mut out: Vec<u64> = Vec::new();
        let mut i: usize = 0;
        while i < n
            invariant
                this.wf(),
                i <= n,
                out.len() == i,
                this.position() == self.position() + i,
                fib((self.position() + n + 1) as nat) <= u64::MAX,
                forall|k: int| 0 <= k < i ==> out[k] == fib((self.position() + k) as nat),
            decreases n - i,
        {
            proof {
                lemma_fib_monotone(this.position() + 2, (self.position() + n + 1) as nat);
            }
            let v = this.next().unwrap();
            out.push(v);
            i = i + 1;
        }
        out.into_iter()
    }
}

impl Default for Fibonacci {
    /// Starts at `fib(0)`.
    fn default() -> (r: Self)
        ensures
            r.wf(),
            r.position() == 0,
    {
        Fibonacci { a: 0, b: 1, pos: Ghost(0) }
    }
}

} // verus!
