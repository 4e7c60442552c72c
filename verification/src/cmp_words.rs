//! Comparison of two 256-bit words by composing two 16-byte comparison
//! gadgets over the low and high halves, in big-endian lexicographic order.

use vstd::prelude::*;
use crate::comparison::{ComparisonGadget, comparison_constraint, lemma_comparison_sound};
use crate::word::{Word, pow256, lemma_pow256_values};

verus! {

/// The constraints the gadget declares: a half comparison on each 128-bit
/// half, `lt = lt_hi + eq_hi * lt_lo` and `eq = eq_hi * eq_lo`.
pub open spec fn cmp_words_constraint(a: Word, b: Word, g: CmpWordsGadget) -> bool {
    &&& comparison_constraint(a.lo(), b.lo(), 16, g.comparison_lo)
    &&& comparison_constraint(a.hi(), b.hi(), 16, g.comparison_hi)
    &&& g.lt == (g.comparison_hi.lt || (g.comparison_hi.eq && g.comparison_lo.lt))
    &&& g.eq == (g.comparison_hi.eq && g.comparison_lo.eq)
}

/// Compares two words, exposing `eq` and `lt`.
pub struct CmpWordsGadget {
    pub comparison_lo: ComparisonGadget,
    pub comparison_hi: ComparisonGadget,
    pub eq: bool,
    pub lt: bool,
}

/// A value below P orders pairs `(hi, lo)` lexicographically under the
/// weighting `lo + hi * P`.
proof fn lemma_lexicographic(a_lo: nat, a_hi: nat, b_lo: nat, b_hi: nat, p: nat)
    by (nonlinear_arith)
    requires
        a_lo < p,
        b_lo < p,
    ensures
        (a_lo + a_hi * p < b_lo + b_hi * p) == (a_hi < b_hi || (a_hi == b_hi && a_lo < b_lo)),
        (a_lo + a_hi * p == b_lo + b_hi * p) == (a_hi == b_hi && a_lo == b_lo),
{
}

impl CmpWordsGadget {
    pub fn construct(a: &Word, b: &Word) -> (r: Self)
        requires
            a.wf(),
            b.wf(),
        ensures
            cmp_words_constraint(*a, *b, r),
            r.lt == (a.value() < b.value()),
            r.eq == (a.value() == b.value()),
    {
        proof {
            a.lemma_value_halves();
            b.lemma_value_halves();
        }
        let a_lo = a.lo_u128();
        let a_hi = a.hi_u128();
        let b_lo = b.lo_u128();
        let b_hi = b.hi_u128();
        // `a[0..16] <= b[0..16]`
        let comparison_lo = ComparisonGadget::construct(a_lo, b_lo, 16);
        // `a[16..32] <= b[16..32]`
        let comparison_hi = ComparisonGadget::construct(a_hi, b_hi, 16);
        let (lt_lo, eq_lo) = comparison_lo.expr();
        let (lt_hi, eq_hi) = comparison_hi.expr();
        // `a < b` when the high halves compare below, or compare equal and
        // the low halves compare below; the two terms exclude each other.
        let lt = lt_hi || (eq_hi && lt_lo);
        // `a == b` when both halves are equal
        let eq = eq_hi && eq_lo;
        proof {
            lemma_lexicographic(a.lo(), a.hi(), b.lo(), b.hi(), pow256(16));
        }
        CmpWordsGadget { comparison_lo, comparison_hi, eq, lt }
    }
}

/// Soundness of the word comparison: any witnesses satisfying the declared
/// constraints decide `lt` and `eq` correctly, and `lt` and `eq` never hold
/// together.
pub proof fn lemma_cmp_words_sound(a: Word, b: Word, g: CmpWordsGadget)
    requires
        a.wf(),
        b.wf(),
        cmp_words_constraint(a, b, g),
    ensures
        g.lt == (a.value() < b.value()),
        g.eq == (a.value() == b.value()),
        !(g.lt && g.eq),
{
    a.lemma_value_halves();
    b.lemma_value_halves();
    lemma_comparison_sound(a.lo(), b.lo(), 16, g.comparison_lo);
    lemma_comparison_sound(a.hi(), b.hi(), 16, g.comparison_hi);
    lemma_lexicographic(a.lo(), a.hi(), b.lo(), b.hi(), pow256(16));
}

} // verus!
