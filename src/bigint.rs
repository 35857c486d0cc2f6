//! Signed integers of any size, held as decimal digits.
use crate::text::{int_text, nat_digits, digit_char, push_char};
use vstd::prelude::*;

verus! {

/// Ten to the power `n`.
pub open spec fn p10(n: nat) -> nat
    decreases n,
{
    if n == 0 {
        1
    } else {
        10 * p10((n - 1) as nat)
    }
}

/// The value of the digits of `s` from index `i` on, least significant first.
pub open spec fn val_from(s: Seq<u8>, i: int) -> nat
    decreases s.len() - i,
{
    if i < 0 || i >= s.len() {
        0
    } else {
        s[i] as nat + 10 * val_from(s, i + 1)
    }
}

/// Every entry is a decimal digit.
pub open spec fn decimal(s: Seq<u8>) -> bool {
    forall|i: int| 0 <= i < s.len() ==> #[trigger] s[i] < 10
}

/// The larger of two lengths.
pub open spec fn longer(a: Seq<u8>, b: Seq<u8>) -> int {
    if a.len() >= b.len() {
        a.len() as int
    } else {
        b.len() as int
    }
}

proof fn lemma_val_bound(s: Seq<u8>, k: int)
    requires
        decimal(s),
        0 <= k <= s.len(),
    ensures
        val_from(s, k) < p10((s.len() - k) as nat),
    decreases s.len() - k,
{
    if k < s.len() {
        lemma_val_bound(s, k + 1);
        assert(s[k] < 10);
    }
}

/// Appends the digits of `a[i..] + b[i..] + carry`.
fn add_from(a: &Vec<u8>, b: &Vec<u8>, i: usize, carry: u8, out: &mut Vec<u8>)
    requires
        decimal(a@),
        decimal(b@),
        decimal(old(out)@),
        carry <= 1,
    ensures
        final(out)@.len() >= old(out)@.len(),
        final(out)@.subrange(0, old(out)@.len() as int) == old(out)@,
        decimal(final(out)@),
        val_from(final(out)@, old(out)@.len() as int) == val_from(a@, i as int) + val_from(
            b@,
            i as int,
        ) + carry,
    decreases longer(a@, b@) - i,
{
    let ghost k = out@.len() as int;
    if i >= a.len() && i >= b.len() {
        if carry > 0 {
            out.push(carry);
            assert(val_from(out@, k + 1) == 0);
        }
        return;
    }
    let da: u8 = if i < a.len() { a[i] } else { 0 };
    let db: u8 = if i < b.len() { b[i] } else { 0 };
    let s: u8 = da + db + carry;
    out.push(s % 10);
    let ghost mid = out@;
    add_from(a, b, i + 1, s / 10, out);
    assert(out@.subrange(0, k + 1) =~= mid.subrange(0, k + 1));
    assert(out@[k] == mid[k]);
    assert(out@.subrange(0, k) =~= mid.subrange(0, k));
}

/// Appends the digits of `a[i..] * d + carry`.
fn scale_from(a: &Vec<u8>, d: u8, i: usize, carry: u8, out: &mut Vec<u8>)
    requires
        decimal(a@),
        decimal(old(out)@),
        d <= 10,
        carry <= 9,
    ensures
        final(out)@.len() >= old(out)@.len(),
        final(out)@.subrange(0, old(out)@.len() as int) == old(out)@,
        decimal(final(out)@),
        val_from(final(out)@, old(out)@.len() as int) == val_from(a@, i as int) * d + carry,
    decreases a@.len() - i,
{
    let ghost k = out@.len() as int;
    if i >= a.len() {
        assert(val_from(a@, i as int) == 0);
        assert(val_from(a@, i as int) * d == 0) by (nonlinear_arith)
            requires
                val_from(a@, i as int) == 0,
        ;
        if carry > 0 {
            out.push(carry);
            assert(val_from(out@, k + 1) == 0);
        }
        return;
    }
    let ai = a[i];
    assert(ai < 10);
    assert(ai * d <= 90) by (nonlinear_arith)
        requires
            ai < 10,
            d <= 10,
    ;
    let x: u8 = ai * d + carry;
    out.push(x % 10);
    let ghost mid = out@;
    scale_from(a, d, i + 1, x / 10, out);
    assert(out@.subrange(0, k + 1) =~= mid.subrange(0, k + 1));
    assert(out@[k] == mid[k]);
    assert(out@.subrange(0, k) =~= mid.subrange(0, k));
    let ghost rest = val_from(a@, i + 1);
    assert(val_from(a@, i as int) == a@[i as int] + 10 * rest);
    assert((a@[i as int] + 10 * rest) * d + carry == (x % 10) + 10 * (rest * d + x / 10))
        by (nonlinear_arith)
        requires
            x == a@[i as int] * d + carry,
    ;
}

/// Appends the digits of `a[i..] - b[i..] - borrow`, one per position up to the
/// longer length, and tells whether a borrow is left over.
fn sub_from(a: &Vec<u8>, b: &Vec<u8>, i: usize, borrow: u8, out: &mut Vec<u8>) -> (bo: bool)
    requires
        decimal(a@),
        decimal(b@),
        decimal(old(out)@),
        borrow <= 1,
        i <= longer(a@, b@),
    ensures
        final(out)@.len() == old(out)@.len() + (longer(a@, b@) - i),
        final(out)@.subrange(0, old(out)@.len() as int) == old(out)@,
        decimal(final(out)@),
        val_from(final(out)@, old(out)@.len() as int) - (if bo {
            p10((longer(a@, b@) - i) as nat) as int
        } else {
            0int
        }) == val_from(a@, i as int) - val_from(b@, i as int) - borrow,
    decreases longer(a@, b@) - i,
{
    let ghost k = out@.len() as int;
    if i >= a.len() && i >= b.len() {
        return borrow == 1;
    }
    let da: i16 = if i < a.len() { a[i] as i16 } else { 0 };
    let db: i16 = if i < b.len() { b[i] as i16 } else { 0 };
    let d: i16 = da - db - borrow as i16;
    let next: u8 = if d < 0 { 1 } else { 0 };
    let digit: u8 = if d < 0 { (d + 10) as u8 } else { d as u8 };
    out.push(digit);
    let ghost mid = out@;
    let bo = sub_from(a, b, i + 1, next, out);
    assert(out@.subrange(0, k + 1) =~= mid.subrange(0, k + 1));
    assert(out@[k] == mid[k]);
    assert(out@.subrange(0, k) =~= mid.subrange(0, k));
    assert(p10((longer(a@, b@) - i) as nat) == 10 * p10((longer(a@, b@) - i - 1) as nat));
    bo
}

fn digits_are_zero(s: &Vec<u8>, i: usize) -> (r: bool)
    ensures
        r == (val_from(s@, i as int) == 0),
    decreases s@.len() - i,
{
    if i >= s.len() {
        true
    } else if s[i] != 0 {
        false
    } else {
        digits_are_zero(s, i + 1)
    }
}

fn add_mag(a: &Vec<u8>, b: &Vec<u8>) -> (r: Vec<u8>)
    requires
        decimal(a@),
        decimal(b@),
    ensures
        decimal(r@),
        val_from(r@, 0) == val_from(a@, 0) + val_from(b@, 0),
{
    let mut out = Vec::new();
    add_from(a, b, 0, 0, &mut out);
    out
}

fn scale_mag(a: &Vec<u8>, d: u8) -> (r: Vec<u8>)
    requires
        decimal(a@),
        d <= 10,
    ensures
        decimal(r@),
        val_from(r@, 0) == val_from(a@, 0) * d,
{
    let mut out = Vec::new();
    scale_from(a, d, 0, 0, &mut out);
    out
}

/// `a - b` when `b` is not larger, and whether `a < b`.
fn sub_mag(a: &Vec<u8>, b: &Vec<u8>) -> (r: (Vec<u8>, bool))
    requires
        decimal(a@),
        decimal(b@),
    ensures
        decimal(r.0@),
        r.1 == (val_from(a@, 0) < val_from(b@, 0)),
        !r.1 ==> val_from(r.0@, 0) == val_from(a@, 0) - val_from(b@, 0),
{
    let mut out = Vec::new();
    let bo = sub_from(a, b, 0, 0, &mut out);
    proof {
        lemma_val_bound(out@, 0);
    }
    (out, bo)
}

fn mul_mag(a: &Vec<u8>, b: &Vec<u8>) -> (r: Vec<u8>)
    requires
        decimal(a@),
        decimal(b@),
    ensures
        decimal(r@),
        val_from(r@, 0) == val_from(a@, 0) * val_from(b@, 0),
{
    let mut acc: Vec<u8> = Vec::new();
    let mut j = b.len();
    assert(val_from(b@, j as int) == 0);
    assert(val_from(acc@, 0) == 0);
    assert(val_from(a@, 0) * 0 == 0) by (nonlinear_arith);
    while j > 0
        invariant
            j <= b@.len(),
            decimal(a@),
            decimal(b@),
            decimal(acc@),
            val_from(acc@, 0) == val_from(a@, 0) * val_from(b@, j as int),
        decreases j,
    {
        let shifted = scale_mag(&acc, 10);
        let part = scale_mag(a, b[j - 1]);
        acc = add_mag(&shifted, &part);
        proof {
            let va = val_from(a@, 0);
            let w = val_from(b@, j as int);
            assert(val_from(b@, j - 1) == b@[j - 1] + 10 * w);
            assert(va * w * 10 + va * b@[j - 1] == va * (b@[j - 1] + 10 * w)) by (nonlinear_arith);
        }
        j = j - 1;
    }
    acc
}

/// Appends the decimal text of the value of `s[i..]`.
fn append_digits_from(s: &Vec<u8>, i: usize, out: &mut String)
    requires
        decimal(s@),
    ensures
        final(out)@ == old(out)@ + nat_digits(val_from(s@, i as int)),
    decreases s@.len() - i,
{
    if i >= s.len() {
        push_char(out, '0');
        assert(nat_digits(0) == seq![digit_char(0)]);
        return;
    }
    let d = s[i];
    let ghost v = val_from(s@, i as int);
    if digits_are_zero(s, i + 1) {
        push_char(out, ((d + 48) as char));
        assert(nat_digits(v) == seq![digit_char(d as int)]);
    } else {
        append_digits_from(s, i + 1, out);
        push_char(out, ((d + 48) as char));
        proof {
            let w = val_from(s@, i + 1);
            assert(v == d + 10 * w);
            assert(v / 10 == w && v % 10 == d) by (nonlinear_arith)
                requires
                    v == d + 10 * w,
                    d < 10,
            ;
        }
    }
}

/// An integer of any size.
#[derive(Debug)]
pub struct BigInt {
    negative: bool,
    digits: Vec<u8>,
}

impl View for BigInt {
    type V = int;

    closed spec fn view(&self) -> int {
        if self.negative {
            -(val_from(self.digits@, 0) as int)
        } else {
            val_from(self.digits@, 0) as int
        }
    }
}

/// The value of a magnitude with a sign.
pub open spec fn signed(negative: bool, m: nat) -> int {
    if negative {
        -(m as int)
    } else {
        m as int
    }
}

impl BigInt {
    #[verifier::type_invariant]
    closed spec fn well_formed(self) -> bool {
        decimal(self.digits@)
    }

    /// The integer `n`.
    pub fn from_u64(n: u64) -> (r: BigInt)
        ensures
            r@ == n,
    {
        let mut digits = Vec::new();
        push_u64(n, &mut digits);
        BigInt { negative: false, digits }
    }

    /// The integer `n`.
    pub fn from_i64(n: i64) -> (r: BigInt)
        ensures
            r@ == n,
    {
        if n < 0 {
            let m: u64 = if n == i64::MIN { 9223372036854775808u64 } else { (-n) as u64 };
            BigInt::from_u64(m).neg()
        } else {
            BigInt::from_u64(n as u64)
        }
    }

    /// A copy of the integer.
    pub fn copy(&self) -> (r: BigInt)
        ensures
            r@ == self@,
    {
        proof {
            use_type_invariant(self);
        }
        let mut digits: Vec<u8> = Vec::new();
        let mut i: usize = 0;
        while i < self.digits.len()
            invariant
                i <= self.digits@.len(),
                digits@ == self.digits@.subrange(0, i as int),
            decreases self.digits@.len() - i,
        {
            digits.push(self.digits[i]);
            i = i + 1;
            assert(digits@ =~= self.digits@.subrange(0, i as int));
        }
        assert(digits@ =~= self.digits@);
        BigInt { negative: self.negative, digits }
    }

    pub fn neg(&self) -> (r: BigInt)
        ensures
            r@ == -self@,
    {
        let c = self.copy();
        proof {
            use_type_invariant(&c);
        }
        BigInt { negative: !c.negative, digits: c.digits }
    }

    pub fn is_zero(&self) -> (r: bool)
        ensures
            r == (self@ == 0),
    {
        digits_are_zero(&self.digits, 0)
    }

    pub fn is_negative(&self) -> (r: bool)
        ensures
            r == (self@ < 0),
    {
        self.negative && !digits_are_zero(&self.digits, 0)
    }

    pub fn add(&self, o: &BigInt) -> (r: BigInt)
        ensures
            r@ == self@ + o@,
    {
        proof {
            use_type_invariant(self);
            use_type_invariant(o);
        }
        if self.negative == o.negative {
            BigInt { negative: self.negative, digits: add_mag(&self.digits, &o.digits) }
        } else {
            let (d, less) = sub_mag(&self.digits, &o.digits);
            if !less {
                BigInt { negative: self.negative, digits: d }
            } else {
                let (e, _) = sub_mag(&o.digits, &self.digits);
                BigInt { negative: o.negative, digits: e }
            }
        }
    }

    pub fn sub(&self, o: &BigInt) -> (r: BigInt)
        ensures
            r@ == self@ - o@,
    {
        self.add(&o.neg())
    }

    pub fn mul(&self, o: &BigInt) -> (r: BigInt)
        ensures
            r@ == self@ * o@,
    {
        proof {
            use_type_invariant(self);
            use_type_invariant(o);
        }
        let digits = mul_mag(&self.digits, &o.digits);
        let r = BigInt { negative: self.negative != o.negative, digits };
        proof {
            let a = val_from(self.digits@, 0) as int;
            let b = val_from(o.digits@, 0) as int;
            assert(signed(self.negative, a as nat) * signed(o.negative, b as nat) == signed(
                self.negative != o.negative,
                (a * b) as nat,
            )) by (nonlinear_arith)
                requires
                    a >= 0,
                    b >= 0,
            ;
        }
        r
    }

    /// The decimal text of the integer, with a leading `-` when it is negative.
    pub fn to_text(&self) -> (r: String)
        ensures
            r@ == int_text(self@),
    {
        proof {
            use_type_invariant(self);
        }
        let mut s = String::new();
        if self.is_negative() {
            push_char(&mut s, '-');
        }
        append_digits_from(&self.digits, 0, &mut s);
        assert(s@ =~= int_text(self@));
        s
    }
}

/// Appends the digits of `n`, least significant first.
fn push_u64(n: u64, out: &mut Vec<u8>)
    requires
        decimal(old(out)@),
    ensures
        final(out)@.len() >= old(out)@.len(),
        final(out)@.subrange(0, old(out)@.len() as int) == old(out)@,
        decimal(final(out)@),
        val_from(final(out)@, old(out)@.len() as int) == n,
    decreases n,
{
    let ghost k = out@.len() as int;
    out.push((n % 10) as u8);
    let ghost mid = out@;
    if n >= 10 {
        push_u64(n / 10, out);
        assert(out@.subrange(0, k + 1) =~= mid.subrange(0, k + 1));
        assert(out@[k] == mid[k]);
        assert(out@.subrange(0, k) =~= mid.subrange(0, k));
    } else {
        assert(val_from(out@, k + 1) == 0);
    }
}

} // verus!
