//! Multiply-add over 256-bit words: proves `a * b + c == d (mod 2^256)`
//! and exposes the exact mathematical carry out of the low 256 bits.
//!
//! `a` and `b` are split into four 64-bit limbs `a0..a3`, `b0..b3`. The
//! partial products
//!   `t0 = a0*b0`,
//!   `t1 = a0*b1 + a1*b0`,
//!   `t2 = a0*b2 + a1*b1 + a2*b0`,
//!   `t3 = a0*b3 + a1*b2 + a2*b1 + a3*b0`
//! capture every contribution landing within the low 256 bits. Two 72-bit
//! carry witnesses, stored as 9 bytes each, tie the halves together:
//!   `t0 + t1*2^64 + c_lo == d_lo + carry_lo * 2^128`
//!   `t2 + t3*2^64 + c_hi + carry_lo == d_hi + carry_hi * 2^128`
//! The overflow term collects `carry_hi` and every cross-limb product of
//! total limb index at least 4, each at its true weight above 2^256, so it
//! equals `(a*b + c) / 2^256` exactly.

use vstd::prelude::*;
use crate::word::{Word, bytes_val, pow256, mul_u64, add_carry, u128_to_le_bytes,
    lemma_pow256_values};
use vstd::arithmetic::div_mod::lemma_fundamental_div_mod_converse;

verus! {

/// Partial product of total limb index 0.
pub open spec fn t0(a: Word, b: Word) -> nat {
    a.limb64(0) * b.limb64(0)
}

/// Partial products of total limb index 1.
pub open spec fn t1(a: Word, b: Word) -> nat {
    a.limb64(0) * b.limb64(1) + a.limb64(1) * b.limb64(0)
}

/// Partial products of total limb index 2.
pub open spec fn t2(a: Word, b: Word) -> nat {
    a.limb64(0) * b.limb64(2) + a.limb64(1) * b.limb64(1) + a.limb64(2) * b.limb64(0)
}

/// Partial products of total limb index 3.
pub open spec fn t3(a: Word, b: Word) -> nat {
    a.limb64(0) * b.limb64(3) + a.limb64(1) * b.limb64(2) + a.limb64(2) * b.limb64(1) + a.limb64(
        3,
    ) * b.limb64(0)
}

/// Every cross-limb product of total limb index 4 or more, at its weight
/// above 2^256: this is the part of `a*b` that the low 256 bits cannot hold.
pub open spec fn overflow_terms(a: Word, b: Word) -> nat {
    a.limb64(1) * b.limb64(3) + a.limb64(2) * b.limb64(2) + a.limb64(3) * b.limb64(1) + (a.limb64(
        2,
    ) * b.limb64(3) + a.limb64(3) * b.limb64(2)) * pow256(8) + (a.limb64(3) * b.limb64(3))
        * pow256(16)
}

/// The true low carry: everything of the low partial products above bit 128.
pub open spec fn carry_lo_val(a: Word, b: Word, c: Word) -> nat {
    (t0(a, b) + t1(a, b) * pow256(8) + c.lo()) / pow256(16)
}

/// The true high carry: everything of the high partial products above bit 256.
pub open spec fn carry_hi_val(a: Word, b: Word, c: Word) -> nat {
    (t2(a, b) + t3(a, b) * pow256(8) + c.hi() + carry_lo_val(a, b, c)) / pow256(16)
}

/// The two equality constraints the gadget declares over its witnesses.
pub open spec fn mul_add_words_constraint(
    a: Word,
    b: Word,
    c: Word,
    d: Word,
    carry_lo: Seq<u8>,
    carry_hi: Seq<u8>,
) -> bool {
    &&& carry_lo.len() == 9
    &&& carry_hi.len() == 9
    &&& t0(a, b) + t1(a, b) * pow256(8) + c.lo() == d.lo() + bytes_val(carry_lo) * pow256(16)
    &&& t2(a, b) + t3(a, b) * pow256(8) + c.hi() + bytes_val(carry_lo) == d.hi() + bytes_val(
        carry_hi,
    ) * pow256(16)
}

/// `(x0 + x1*m) * (y0 + y1*m)` expands to the four cross products.
proof fn lemma_half_product(x0: nat, x1: nat, y0: nat, y1: nat, m: nat)
    by (nonlinear_arith)
    ensures
        (x0 + x1 * m) * (y0 + y1 * m) == x0 * y0 + (x0 * y1 + x1 * y0) * m + (x1 * y1) * (m * m),
{
}

/// The heart of the gadget: any values satisfying the two carry identities
/// recompose to `a*b + c` exactly, with the overflow term as the quotient
/// by 2^256 and the two 128-bit halves as the remainder.
proof fn lemma_mul_add_identity(a: Word, b: Word, c: Word, d_lo: nat, d_hi: nat, cl: nat, ch: nat)
    requires
        a.wf(),
        b.wf(),
        c.wf(),
        d_lo < pow256(16),
        d_hi < pow256(16),
        d_lo + cl * pow256(16) == t0(a, b) + t1(a, b) * pow256(8) + c.lo(),
        d_hi + ch * pow256(16) == t2(a, b) + t3(a, b) * pow256(8) + c.hi() + cl,
    ensures
        d_lo + d_hi * pow256(16) + (ch + overflow_terms(a, b)) * pow256(32) == a.value() * b.value()
            + c.value(),
        ch + overflow_terms(a, b) == (a.value() * b.value() + c.value()) / pow256(32),
        d_lo + d_hi * pow256(16) == (a.value() * b.value() + c.value()) % pow256(32),
{
    lemma_pow256_values();
    a.lemma_value_halves();
    a.lemma_halves_limbs();
    b.lemma_value_halves();
    b.lemma_halves_limbs();
    c.lemma_value_halves();
    let k = pow256(8);
    let p = pow256(16);
    let q = pow256(32);
    assert(k * k == p) by (nonlinear_arith)
        requires
            k == 0x1_0000_0000_0000_0000,
            p == 0x1_0000_0000_0000_0000_0000_0000_0000_0000,
    ;
    assert(p * p == q) by (nonlinear_arith)
        requires
            p == 0x1_0000_0000_0000_0000_0000_0000_0000_0000,
            q == 0x1_0000_0000_0000_0000_0000_0000_0000_0000_0000_0000_0000_0000_0000_0000_0000_0000,
    ;
    lemma_half_product(a.lo(), a.hi(), b.lo(), b.hi(), p);
    assert(a.value() * b.value() == a.lo() * b.lo() + (a.lo() * b.hi() + a.hi() * b.lo()) * p + (
    a.hi() * b.hi()) * q);
    lemma_half_product(a.limb64(0), a.limb64(1), b.limb64(0), b.limb64(1), k);
    lemma_half_product(a.limb64(0), a.limb64(1), b.limb64(2), b.limb64(3), k);
    lemma_half_product(a.limb64(2), a.limb64(3), b.limb64(0), b.limb64(1), k);
    lemma_half_product(a.limb64(2), a.limb64(3), b.limb64(2), b.limb64(3), k);
    let v = a.value() * b.value() + c.value();
    let high = ch + overflow_terms(a, b);
    assert(v == d_lo + d_hi * p + high * q);
    assert(d_lo + d_hi * p < q);
    lemma_fundamental_div_mod_converse(v as int, q as int, high as int, (d_lo + d_hi * p) as int);
}

/// Computes, from `a`, `b` and `c` alone, the two 128-bit halves of
/// `(a*b + c) mod 2^256`, the two carry witnesses, and the two halves of
/// the overflow quotient `(a*b + c) / 2^256`.
#[verifier::rlimit(100)]
fn mul_add_parts(a: &Word, b: &Word, c: &Word) -> (r: (u128, u128, u128, u128, u128, u128))
    requires
        a.wf(),
        b.wf(),
        c.wf(),
    ensures
        r.0 as nat + r.2 as nat * pow256(16) == t0(*a, *b) + t1(*a, *b) * pow256(8) + c.lo(),
        r.1 as nat + r.3 as nat * pow256(16) == t2(*a, *b) + t3(*a, *b) * pow256(8) + c.hi()
            + r.2 as nat,
        (r.2 as nat) < pow256(9),
        (r.3 as nat) < pow256(9),
        r.2 as nat == carry_lo_val(*a, *b, *c),
        r.3 as nat == carry_hi_val(*a, *b, *c),
        r.0 as nat + r.1 as nat * pow256(16) == (a.value() * b.value() + c.value()) % pow256(32),
        r.4 as nat + r.5 as nat * pow256(16) == (a.value() * b.value() + c.value()) / pow256(32),
{
    proof {
        lemma_pow256_values();
    }
    let a0 = a.limb64_u64(0);
    let a1 = a.limb64_u64(1);
    let a2 = a.limb64_u64(2);
    let a3 = a.limb64_u64(3);
    let b0 = b.limb64_u64(0);
    let b1 = b.limb64_u64(1);
    let b2 = b.limb64_u64(2);
    let b3 = b.limb64_u64(3);
    let c_lo = c.lo_u128();
    let c_hi = c.hi_u128();

    // low 128 bits: t0 + t1 * 2^64 + c_lo
    let p00 = mul_u64(a0, b0);
    let p01 = mul_u64(a0, b1);
    let p10 = mul_u64(a1, b0);
    let (s1, e1) = add_carry(p00, c_lo);
    let (s2, e2) = add_carry(s1, (p01 % 0x1_0000_0000_0000_0000) * 0x1_0000_0000_0000_0000);
    let (s3, e3) = add_carry(s2, (p10 % 0x1_0000_0000_0000_0000) * 0x1_0000_0000_0000_0000);
    let carry_lo: u128 = e1 as u128 + e2 as u128 + e3 as u128 + p01 / 0x1_0000_0000_0000_0000 + p10
        / 0x1_0000_0000_0000_0000;
    let d_lo = s3;
    proof {
        assert(p01 as nat == 0x1_0000_0000_0000_0000 * (p01 as nat / 0x1_0000_0000_0000_0000) + p01 as nat
            % 0x1_0000_0000_0000_0000);
        assert(p10 as nat == 0x1_0000_0000_0000_0000 * (p10 as nat / 0x1_0000_0000_0000_0000) + p10 as nat
            % 0x1_0000_0000_0000_0000);
        assert(d_lo as nat + carry_lo as nat * pow256(16) == t0(*a, *b) + t1(*a, *b) * pow256(8)
            + c.lo());
        lemma_fundamental_div_mod_converse(
            (t0(*a, *b) + t1(*a, *b) * pow256(8) + c.lo()) as int,
            pow256(16) as int,
            carry_lo as int,
            d_lo as int,
        );
    }

    // high 128 bits: t2 + t3 * 2^64 + c_hi + carry_lo
    let p02 = mul_u64(a0, b2);
    let p11 = mul_u64(a1, b1);
    let p20 = mul_u64(a2, b0);
    let p03 = mul_u64(a0, b3);
    let p12 = mul_u64(a1, b2);
    let p21 = mul_u64(a2, b1);
    let p30 = mul_u64(a3, b0);
    let (h1, f1) = add_carry(p02, p11);
    let (h2, f2) = add_carry(h1, p20);
    let (h3, f3) = add_carry(h2, c_hi);
    let (h4, f4) = add_carry(h3, carry_lo);
    let (h5, f5) = add_carry(h4, (p03 % 0x1_0000_0000_0000_0000) * 0x1_0000_0000_0000_0000);
    let (h6, f6) = add_carry(h5, (p12 % 0x1_0000_0000_0000_0000) * 0x1_0000_0000_0000_0000);
    let (h7, f7) = add_carry(h6, (p21 % 0x1_0000_0000_0000_0000) * 0x1_0000_0000_0000_0000);
    let (h8, f8) = add_carry(h7, (p30 % 0x1_0000_0000_0000_0000) * 0x1_0000_0000_0000_0000);
    let carry_hi: u128 = f1 as u128 + f2 as u128 + f3 as u128 + f4 as u128 + f5 as u128
        + f6 as u128 + f7 as u128 + f8 as u128 + p03 / 0x1_0000_0000_0000_0000 + p12
        / 0x1_0000_0000_0000_0000 + p21 / 0x1_0000_0000_0000_0000 + p30 / 0x1_0000_0000_0000_0000;
    let d_hi = h8;
    proof {
        assert(p03 as nat == 0x1_0000_0000_0000_0000 * (p03 as nat / 0x1_0000_0000_0000_0000) + p03 as nat
            % 0x1_0000_0000_0000_0000);
        assert(p12 as nat == 0x1_0000_0000_0000_0000 * (p12 as nat / 0x1_0000_0000_0000_0000) + p12 as nat
            % 0x1_0000_0000_0000_0000);
        assert(p21 as nat == 0x1_0000_0000_0000_0000 * (p21 as nat / 0x1_0000_0000_0000_0000) + p21 as nat
            % 0x1_0000_0000_0000_0000);
        assert(p30 as nat == 0x1_0000_0000_0000_0000 * (p30 as nat / 0x1_0000_0000_0000_0000) + p30 as nat
            % 0x1_0000_0000_0000_0000);
        assert(d_hi as nat + carry_hi as nat * pow256(16) == t2(*a, *b) + t3(*a, *b) * pow256(8)
            + c.hi() + carry_lo as nat);
        lemma_fundamental_div_mod_converse(
            (t2(*a, *b) + t3(*a, *b) * pow256(8) + c.hi() + carry_lo as nat) as int,
            pow256(16) as int,
            carry_hi as int,
            d_hi as int,
        );
        lemma_mul_add_identity(*a, *b, *c, d_lo as nat, d_hi as nat, carry_lo as nat,
            carry_hi as nat);
    }

    // overflow: carry_hi plus every cross product of limb index >= 4
    let p13 = mul_u64(a1, b3);
    let p22 = mul_u64(a2, b2);
    let p31 = mul_u64(a3, b1);
    let p23 = mul_u64(a2, b3);
    let p32 = mul_u64(a3, b2);
    let p33 = mul_u64(a3, b3);
    let (o1, g1) = add_carry(carry_hi, p13);
    let (o2, g2) = add_carry(o1, p22);
    let (o3, g3) = add_carry(o2, p31);
    let (o4, g4) = add_carry(o3, (p23 % 0x1_0000_0000_0000_0000) * 0x1_0000_0000_0000_0000);
    let (o5, g5) = add_carry(o4, (p32 % 0x1_0000_0000_0000_0000) * 0x1_0000_0000_0000_0000);
    let o_lo = o5;
    let o_small: u128 = g1 as u128 + g2 as u128 + g3 as u128 + g4 as u128 + g5 as u128 + p23
        / 0x1_0000_0000_0000_0000 + p32 / 0x1_0000_0000_0000_0000;
    proof {
        assert(p23 as nat == 0x1_0000_0000_0000_0000 * (p23 as nat / 0x1_0000_0000_0000_0000) + p23 as nat
            % 0x1_0000_0000_0000_0000);
        assert(p32 as nat == 0x1_0000_0000_0000_0000 * (p32 as nat / 0x1_0000_0000_0000_0000) + p32 as nat
            % 0x1_0000_0000_0000_0000);
        // the mathematical high half of the overflow is bounded because the
        // overflow is a quotient of a value below 2^512
        let v = a.value() * b.value() + c.value();
        let o_total = carry_hi as nat + overflow_terms(*a, *b);
        assert(o_lo as nat + (o_small as nat + p33 as nat) * pow256(16) == o_total);
        assert(o_total == v / pow256(32));
        assert(v < pow256(32) * pow256(32)) by {
            a.lemma_value_halves();
            b.lemma_value_halves();
            c.lemma_value_halves();
            assert(a.value() * b.value() <= (pow256(32) - 1) * (pow256(32) - 1))
                by (nonlinear_arith)
                requires
                    a.value() < pow256(32),
                    b.value() < pow256(32),
            ;
            assert((pow256(32) - 1) * (pow256(32) - 1) + pow256(32) <= pow256(32) * pow256(32))
                by (nonlinear_arith)
                requires
                    pow256(32) >= 1,
            ;
        }
        assert(v / pow256(32) < pow256(32)) by {
            assert(pow256(32) * pow256(32) <= pow256(32) * pow256(32));
            vstd::arithmetic::div_mod::lemma_multiply_divide_lt(
                v as int,
                pow256(32) as int,
                pow256(32) as int,
            );
        }
        assert(pow256(32) == pow256(16) * pow256(16)) by (nonlinear_arith)
            requires
                pow256(16) == 0x1_0000_0000_0000_0000_0000_0000_0000_0000,
                pow256(32)
                    == 0x1_0000_0000_0000_0000_0000_0000_0000_0000_0000_0000_0000_0000_0000_0000_0000_0000,
        ;
        // o_small + p33 < 2^128, else o_total would reach 2^512 / 2^256
        assert((o_small as nat + p33 as nat) < pow256(16)) by (nonlinear_arith)
            requires
                o_lo as nat + (o_small as nat + p33 as nat) * pow256(16) < pow256(16) * pow256(16),
        ;
    }
    let o_hi = o_small + p33;
    (d_lo, d_hi, carry_lo, carry_hi, o_lo, o_hi)
}

/// Proves `a * b + c == d (mod 2^256)` with two 72-bit carry witnesses and
/// exposes the overflow, the true carry out of the 256-bit result.
pub struct MulAddWordsGadget {
    pub carry_lo: Vec<u8>,
    pub carry_hi: Vec<u8>,
    pub overflow: Word,
}

impl MulAddWordsGadget {
    /// The stored witnesses are the true carries of `a * b + c`.
    pub open spec fn carries_for(self, a: Word, b: Word, c: Word) -> bool {
        &&& self.carry_lo@.len() == 9
        &&& self.carry_hi@.len() == 9
        &&& bytes_val(self.carry_lo@) == carry_lo_val(a, b, c)
        &&& bytes_val(self.carry_hi@) == carry_hi_val(a, b, c)
    }

    /// Allocates and assigns the carry witnesses from `a`, `b` and `c`.
    /// The declared constraints then hold exactly when `d` is the low
    /// 256 bits of `a*b + c`, and the overflow word carries the quotient.
    pub fn construct(a: &Word, b: &Word, c: &Word, d: &Word) -> (r: Self)
        requires
            a.wf(),
            b.wf(),
            c.wf(),
            d.wf(),
        ensures
            r.carries_for(*a, *b, *c),
            mul_add_words_constraint(*a, *b, *c, *d, r.carry_lo@, r.carry_hi@) <==> d.value() == (
            a.value() * b.value() + c.value()) % pow256(32),
            r.overflow.wf(),
            r.overflow.value() == (a.value() * b.value() + c.value()) / pow256(32),
            r.overflow.value() == 0 <==> a.value() * b.value() + c.value() < pow256(32),
    {
        let parts = mul_add_parts(a, b, c);
        let (d_lo, d_hi, cl, ch, o_lo, o_hi) = parts;
        proof {
            lemma_pow256_values();
        }
        let carry_lo = u128_to_le_bytes(cl, 9);
        let carry_hi = u128_to_le_bytes(ch, 9);
        let overflow = Word::from_u128_pair(o_lo, o_hi);
        let r = MulAddWordsGadget { carry_lo, carry_hi, overflow };
        proof {
            let v = a.value() * b.value() + c.value();
            d.lemma_value_halves();
            // constraints hold iff d recomposes the computed halves
            if d.lo() == d_lo as nat && d.hi() == d_hi as nat {
                assert(mul_add_words_constraint(*a, *b, *c, *d, r.carry_lo@, r.carry_hi@));
            }
            if mul_add_words_constraint(*a, *b, *c, *d, r.carry_lo@, r.carry_hi@) {
                lemma_mul_add_identity(*a, *b, *c, d.lo(), d.hi(), cl as nat, ch as nat);
            }
            if d.value() == v % pow256(32) {
                // the halves of a value below 2^256 are unique
                lemma_halves_unique(d.lo(), d.hi(), d_lo as nat, d_hi as nat);
            }
            // overflow == 0 exactly when nothing exceeds 256 bits
            if v < pow256(32) {
                vstd::arithmetic::div_mod::lemma_basic_div(v as int, pow256(32) as int);
            }
            if v / pow256(32) == 0 {
                vstd::arithmetic::div_mod::lemma_fundamental_div_mod(v as int, pow256(32) as int);
                vstd::arithmetic::div_mod::lemma_mod_bound(v as int, pow256(32) as int);
            }
        }
        r
    }

    /// Evaluates the declared constraints against concrete operands, as the
    /// proof system would at proving time.
    pub fn check(&self, a: &Word, b: &Word, c: &Word, d: &Word) -> (ok: bool)
        requires
            a.wf(),
            b.wf(),
            c.wf(),
            d.wf(),
            self.carries_for(*a, *b, *c),
        ensures
            ok == mul_add_words_constraint(*a, *b, *c, *d, self.carry_lo@, self.carry_hi@),
            ok == (d.value() == (a.value() * b.value() + c.value()) % pow256(32)),
    {
        let parts = mul_add_parts(a, b, c);
        let (d_lo, d_hi, cl, ch, _, _) = parts;
        let ok = d.lo_u128() == d_lo && d.hi_u128() == d_hi;
        proof {
            lemma_pow256_values();
            let v = a.value() * b.value() + c.value();
            d.lemma_value_halves();
            if ok {
                assert(mul_add_words_constraint(*a, *b, *c, *d, self.carry_lo@, self.carry_hi@));
            }
            if mul_add_words_constraint(*a, *b, *c, *d, self.carry_lo@, self.carry_hi@) {
                lemma_mul_add_identity(
                    *a,
                    *b,
                    *c,
                    d.lo(),
                    d.hi(),
                    bytes_val(self.carry_lo@),
                    bytes_val(self.carry_hi@),
                );
                lemma_halves_unique(d.lo(), d.hi(), d_lo as nat, d_hi as nat);
            }
            if d.value() == v % pow256(32) {
                lemma_halves_unique(d.lo(), d.hi(), d_lo as nat, d_hi as nat);
            }
        }
        ok
    }

    /// The overflow term: zero exactly when `a*b + c` fits 256 bits.
    pub fn overflow(&self) -> (r: &Word)
        ensures
            r == self.overflow,
    {
        &self.overflow
    }
}

/// Two half pairs below 2^128 denoting the same value are equal.
proof fn lemma_halves_unique(x_lo: nat, x_hi: nat, y_lo: nat, y_hi: nat)
    requires
        x_lo < pow256(16),
        y_lo < pow256(16),
        x_lo + x_hi * pow256(16) == y_lo + y_hi * pow256(16),
    ensures
        x_lo == y_lo,
        x_hi == y_hi,
{
    let p = pow256(16) as int;
    lemma_pow256_values();
    lemma_fundamental_div_mod_converse(
        (x_lo + x_hi * pow256(16)) as int,
        p,
        x_hi as int,
        x_lo as int,
    );
    lemma_fundamental_div_mod_converse(
        (y_lo + y_hi * pow256(16)) as int,
        p,
        y_hi as int,
        y_lo as int,
    );
}

/// Soundness of the multiply-add gadget: whatever 9-byte carry witnesses
/// are supplied, the declared constraints force `d` to be exactly
/// `(a*b + c) mod 2^256`, so no witness exists for any other `d`.
pub proof fn lemma_mul_add_words_sound(
    a: Word,
    b: Word,
    c: Word,
    d: Word,
    carry_lo: Seq<u8>,
    carry_hi: Seq<u8>,
)
    requires
        a.wf(),
        b.wf(),
        c.wf(),
        d.wf(),
        mul_add_words_constraint(a, b, c, d, carry_lo, carry_hi),
    ensures
        d.value() == (a.value() * b.value() + c.value()) % pow256(32),
{
    d.lemma_value_halves();
    lemma_mul_add_identity(a, b, c, d.lo(), d.hi(), bytes_val(carry_lo), bytes_val(carry_hi));
}

} // verus!
