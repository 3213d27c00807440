//! Arbitrary-precision natural numbers, just large enough for the exact
//! rational comparisons that the transfer-function tables need.
//!
//! A number is a little-endian `Vec<u32>` of limbs; limbs past the end count as zero.
use vstd::prelude::*;

verus! {

/// The radix of one limb.
pub open spec fn limb_base() -> nat {
    0x1_0000_0000
}

/// `limb_base()` raised to `j`.
pub open spec fn base_pow(j: nat) -> nat
    decreases j,
{
    if j == 0 {
        1
    } else {
        limb_base() * base_pow((j - 1) as nat)
    }
}

/// Natural-number power `b^e`.
pub open spec fn pow_nat(b: nat, e: nat) -> nat
    decreases e,
{
    if e == 0 {
        1
    } else {
        b * pow_nat(b, (e - 1) as nat)
    }
}

/// The limb at position `i`, zero past the end.
pub open spec fn limb_at(s: Seq<u32>, i: int) -> nat {
    if 0 <= i < s.len() {
        s[i] as nat
    } else {
        0
    }
}

/// The value of the lowest `j` limbs of `s`.
pub open spec fn prefix_value(s: Seq<u32>, j: nat) -> nat
    decreases j,
{
    if j == 0 {
        0
    } else {
        prefix_value(s, (j - 1) as nat) + limb_at(s, j - 1) * base_pow((j - 1) as nat)
    }
}

/// The natural number that the limbs `s` stand for.
pub open spec fn value(s: Seq<u32>) -> nat {
    prefix_value(s, s.len())
}

pub proof fn lemma_base_pow_positive(j: nat)
    ensures
        base_pow(j) >= 1,
    decreases j,
{
    if j > 0 {
        lemma_base_pow_positive((j - 1) as nat);
        assert(limb_base() * base_pow((j - 1) as nat) >= 1) by (nonlinear_arith)
            requires
                base_pow((j - 1) as nat) >= 1,
                limb_base() == 0x1_0000_0000,
        ;
    }
}

pub proof fn lemma_pow_nat_monotone(x: nat, y: nat, e: nat)
    requires
        x <= y,
    ensures
        pow_nat(x, e) <= pow_nat(y, e),
    decreases e,
{
    if e > 0 {
        lemma_pow_nat_monotone(x, y, (e - 1) as nat);
        let px = pow_nat(x, (e - 1) as nat);
        let py = pow_nat(y, (e - 1) as nat);
        assert(x * px <= y * py) by (nonlinear_arith)
            requires
                x <= y,
                px <= py,
        ;
    }
}

/// Prefix values only read the limbs below `j`.
pub proof fn lemma_prefix_agree(s: Seq<u32>, t: Seq<u32>, j: nat)
    requires
        forall|i: int| 0 <= i < j ==> limb_at(s, i) == limb_at(t, i),
    ensures
        prefix_value(s, j) == prefix_value(t, j),
    decreases j,
{
    if j > 0 {
        lemma_prefix_agree(s, t, (j - 1) as nat);
    }
}

/// Zero limbs past the end add nothing.
pub proof fn lemma_prefix_past_end(s: Seq<u32>, j: nat)
    requires
        j >= s.len(),
    ensures
        prefix_value(s, j) == value(s),
    decreases j,
{
    if j > s.len() {
        lemma_prefix_past_end(s, (j - 1) as nat);
        assert(limb_at(s, j - 1) == 0);
        assert(prefix_value(s, j) == prefix_value(s, (j - 1) as nat) + limb_at(s, j - 1) * base_pow(
            (j - 1) as nat,
        ));
    }
}

pub proof fn lemma_value_push(s: Seq<u32>, d: u32)
    ensures
        value(s.push(d)) == value(s) + d * base_pow(s.len()),
{
    let t = s.push(d);
    lemma_prefix_agree(s, t, s.len());
}

/// The limbs of `x`.
pub fn from_u64(x: u64) -> (r: Vec<u32>)
    ensures
        value(r@) == x,
{
    let lo = (x % 0x1_0000_0000) as u32;
    let hi = (x / 0x1_0000_0000) as u32;
    let mut r: Vec<u32> = Vec::new();
    proof {
        assert(value(r@) == 0);
        lemma_value_push(r@, lo);
        assert(base_pow(0) == 1);
        assert(lo * base_pow(0) == lo) by (nonlinear_arith)
            requires
                base_pow(0) == 1,
        ;
    }
    r.push(lo);
    proof {
        lemma_value_push(r@, hi);
        assert(value(r@) == lo);
        assert(base_pow(1) == limb_base() * base_pow(0));
        assert(base_pow(1) == 0x1_0000_0000);
        assert(hi * base_pow(1) == hi * 0x1_0000_0000) by (nonlinear_arith)
            requires
                base_pow(1) == 0x1_0000_0000,
        ;
        assert(x == lo + hi * 0x1_0000_0000);
    }
    r.push(hi);
    r
}

/// A copy of `a`.
pub fn copy_limbs(a: &Vec<u32>) -> (r: Vec<u32>)
    ensures
        r@ == a@,
{
    let mut r: Vec<u32> = Vec::new();
    let n = a.len();
    let mut j: usize = 0;
    while j < n
        invariant
            n == a.len(),
            j <= n,
            r@ == a@.take(j as int),
        decreases n - j,
    {
        r.push(a[j]);
        j += 1;
        assert(r@ =~= a@.take(j as int));
    }
    assert(a@.take(n as int) =~= a@);
    r
}

/// `a × m`.
pub fn mul_small(a: &Vec<u32>, m: u64) -> (r: Vec<u32>)
    ensures
        value(r@) == value(a@) * m,
{
    let n = a.len();
    let mut r: Vec<u32> = Vec::new();
    let mut carry: u128 = 0;
    let mut j: usize = 0;
    proof {
        assert(value(r@) == 0);
        assert(prefix_value(a@, 0) == 0);
        assert(0 * base_pow(0) + 0 == 0 * m) by (nonlinear_arith);
    }
    while j < n
        invariant
            n == a.len(),
            j <= n,
            r.len() == j,
            carry < 0x1_0000_0000_0000_0000,
            value(r@) + carry * base_pow(j as nat) == prefix_value(a@, j as nat) * m,
        decreases n - j,
    {
        let aj = a[j];
        assert((aj as u128) * (m as u128) <= 0xffff_ffff * 0xffff_ffff_ffff_ffffu128) by (
        nonlinear_arith)
            requires
                aj <= 0xffff_ffff,
                m <= 0xffff_ffff_ffff_ffff,
        ;
        let t: u128 = (aj as u128) * (m as u128) + carry;
        let digit = (t % 0x1_0000_0000) as u32;
        let next_carry: u128 = t / 0x1_0000_0000;
        proof {
            let p = base_pow(j as nat);
            let vr = value(r@);
            lemma_value_push(r@, digit);
            assert(base_pow((j + 1) as nat) == limb_base() * p);
            assert(prefix_value(a@, (j + 1) as nat) == prefix_value(a@, j as nat) + aj * p);
            assert(t == digit + next_carry * 0x1_0000_0000);
            let pa = prefix_value(a@, j as nat);
            assert(vr + digit * p + next_carry * (limb_base() * p) == (pa + aj * p) * m) by (
            nonlinear_arith)
                requires
                    vr + carry * p == pa * m,
                    t == digit + next_carry * 0x1_0000_0000,
                    t == aj * m + carry,
                    limb_base() == 0x1_0000_0000,
            ;
        }
        r.push(digit);
        carry = next_carry;
        j += 1;
    }
    let lo = (carry % 0x1_0000_0000) as u32;
    let hi = (carry / 0x1_0000_0000) as u32;
    proof {
        let p = base_pow(n as nat);
        let vr = value(r@);
        lemma_value_push(r@, lo);
        lemma_value_push(r@.push(lo), hi);
        assert(base_pow((n + 1) as nat) == limb_base() * p);
        assert(vr + lo * p + hi * (limb_base() * p) == vr + carry * p) by (nonlinear_arith)
            requires
                carry == lo + hi * 0x1_0000_0000,
                limb_base() == 0x1_0000_0000,
        ;
        lemma_prefix_past_end(a@, n as nat);
    }
    r.push(lo);
    r.push(hi);
    r
}

/// `a × f^e`.
pub fn mul_pow(a: &Vec<u32>, f: u64, e: u32) -> (r: Vec<u32>)
    ensures
        value(r@) == value(a@) * pow_nat(f as nat, e as nat),
{
    let mut r = copy_limbs(a);
    let mut i: u32 = 0;
    proof {
        assert(pow_nat(f as nat, 0) == 1);
        assert(value(a@) * 1 == value(a@));
    }
    while i < e
        invariant
            i <= e,
            value(r@) == value(a@) * pow_nat(f as nat, i as nat),
        decreases e - i,
    {
        let next = mul_small(&r, f);
        proof {
            let va = value(a@);
            let pw = pow_nat(f as nat, i as nat);
            assert(pow_nat(f as nat, (i + 1) as nat) == f * pw);
            assert(va * pw * f == va * (f * pw)) by (nonlinear_arith);
        }
        r = next;
        i += 1;
    }
    r
}

/// Whether `value(a) >= value(b)`, by a subtraction with borrow.
pub fn greater_or_equal(a: &Vec<u32>, b: &Vec<u32>) -> (r: bool)
    ensures
        r == (value(a@) >= value(b@)),
{
    let n = if a.len() >= b.len() {
        a.len()
    } else {
        b.len()
    };
    let mut borrow: bool = false;
    let ghost mut rv: int = 0;
    let mut j: usize = 0;
    while j < n
        invariant
            j <= n,
            n >= a.len(),
            n >= b.len(),
            0 <= rv < base_pow(j as nat),
            prefix_value(a@, j as nat) - prefix_value(b@, j as nat) == rv - (if borrow {
                base_pow(j as nat) as int
            } else {
                0int
            }),
        decreases n - j,
    {
        let x: i64 = if j < a.len() {
            a[j] as i64
        } else {
            0
        };
        let y: i64 = if j < b.len() {
            b[j] as i64
        } else {
            0
        };
        let d: i64 = x - y - (if borrow {
            1i64
        } else {
            0i64
        });
        let (digit, next_borrow): (i64, bool) = if d < 0 {
            (d + 0x1_0000_0000, true)
        } else {
            (d, false)
        };
        proof {
            let p = base_pow(j as nat);
            lemma_base_pow_positive(j as nat);
            assert(base_pow((j + 1) as nat) == limb_base() * p);
            assert(x == limb_at(a@, j as int));
            assert(y == limb_at(b@, j as int));
            let bo: int = if borrow {
                1
            } else {
                0
            };
            let nb: int = if next_borrow {
                1
            } else {
                0
            };
            assert(digit == x - y - bo + nb * 0x1_0000_0000);
            assert(0 <= digit < 0x1_0000_0000);
            let pa = prefix_value(a@, j as nat);
            let pb = prefix_value(b@, j as nat);
            assert((pa + x * p) - (pb + y * p) == (rv + digit * p) - nb * (limb_base() * p)) by (
            nonlinear_arith)
                requires
                    pa - pb == rv - bo * p,
                    digit == x - y - bo + nb * 0x1_0000_0000,
                    limb_base() == 0x1_0000_0000,
            ;
            assert(rv + digit * p < limb_base() * p) by (nonlinear_arith)
                requires
                    0 <= rv < p,
                    0 <= digit < 0x1_0000_0000,
                    limb_base() == 0x1_0000_0000,
            ;
            assert(0 <= digit * p) by (nonlinear_arith)
                requires
                    0 <= digit,
                    p >= 1,
            ;
            rv = rv + digit * p;
        }
        borrow = next_borrow;
        j += 1;
    }
    proof {
        lemma_prefix_past_end(a@, n as nat);
        lemma_prefix_past_end(b@, n as nat);
    }
    !borrow
}

/// Whether `value(a) <= value(b)`.
pub fn less_or_equal(a: &Vec<u32>, b: &Vec<u32>) -> (r: bool)
    ensures
        r == (value(a@) <= value(b@)),
{
    greater_or_equal(b, a)
}

} // verus!
