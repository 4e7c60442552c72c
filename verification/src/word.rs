//! 256-bit words as 32 little-endian bytes, and the byte-recomposition
//! arithmetic shared by every gadget.

use vstd::prelude::*;
use vstd::arithmetic::mul::lemma_mul_is_distributive_add;
use vstd::arithmetic::mul::lemma_mul_is_associative;

verus! {

/// 256 raised to the n-th power: the weight of the n-th little-endian byte.
pub open spec fn pow256(n: nat) -> nat
    decreases n,
{
    if n == 0 {
        1
    } else {
        256 * pow256((n - 1) as nat)
    }
}

/// The unsigned integer denoted by a little-endian byte string:
/// `s[0] + s[1]*256 + s[2]*256^2 + ...`.
pub open spec fn bytes_val(s: Seq<u8>) -> nat
    decreases s.len(),
{
    if s.len() == 0 {
        0
    } else {
        s[0] as nat + 256 * bytes_val(s.skip(1))
    }
}

pub proof fn lemma_pow256_pos(n: nat)
    ensures
        pow256(n) >= 1,
    decreases n,
{
    if n > 0 {
        lemma_pow256_pos((n - 1) as nat);
    }
}

pub proof fn lemma_pow256_increases(m: nat, n: nat)
    requires
        m <= n,
    ensures
        pow256(m) <= pow256(n),
    decreases n,
{
    if m < n {
        lemma_pow256_increases(m, (n - 1) as nat);
        lemma_pow256_pos((n - 1) as nat);
    }
}

/// The concrete weights the gadgets rely on, up to the 32-byte word size.
pub proof fn lemma_pow256_values()
    ensures
        pow256(1) == 0x100,
        pow256(2) == 0x10000,
        pow256(3) == 0x100_0000,
        pow256(4) == 0x1_0000_0000,
        pow256(5) == 0x100_0000_0000,
        pow256(6) == 0x1_0000_0000_0000,
        pow256(7) == 0x100_0000_0000_0000,
        pow256(8) == 0x1_0000_0000_0000_0000,
        pow256(9) == 0x100_0000_0000_0000_0000,
        pow256(10) == 0x1_0000_0000_0000_0000_0000,
        pow256(11) == 0x100_0000_0000_0000_0000_0000,
        pow256(12) == 0x1_0000_0000_0000_0000_0000_0000,
        pow256(13) == 0x100_0000_0000_0000_0000_0000_0000,
        pow256(14) == 0x1_0000_0000_0000_0000_0000_0000_0000,
        pow256(15) == 0x100_0000_0000_0000_0000_0000_0000_0000,
        pow256(16) == 0x1_0000_0000_0000_0000_0000_0000_0000_0000,
        pow256(17) == 0x100_0000_0000_0000_0000_0000_0000_0000_0000,
        pow256(24) == 0x1_0000_0000_0000_0000_0000_0000_0000_0000_0000_0000_0000_0000,
        pow256(32)
            == 0x1_0000_0000_0000_0000_0000_0000_0000_0000_0000_0000_0000_0000_0000_0000_0000_0000,
{
    assert(pow256(0) == 1);
    assert(pow256(1) == 0x100);
    assert(pow256(2) == 0x10000);
    assert(pow256(3) == 0x100_0000);
    assert(pow256(4) == 0x1_0000_0000);
    assert(pow256(5) == 0x100_0000_0000);
    assert(pow256(6) == 0x1_0000_0000_0000);
    assert(pow256(7) == 0x100_0000_0000_0000);
    assert(pow256(8) == 0x1_0000_0000_0000_0000);
    assert(pow256(9) == 0x100_0000_0000_0000_0000);
    assert(pow256(10) == 0x1_0000_0000_0000_0000_0000);
    assert(pow256(11) == 0x100_0000_0000_0000_0000_0000);
    assert(pow256(12) == 0x1_0000_0000_0000_0000_0000_0000);
    assert(pow256(13) == 0x100_0000_0000_0000_0000_0000_0000);
    assert(pow256(14) == 0x1_0000_0000_0000_0000_0000_0000_0000);
    assert(pow256(15) == 0x100_0000_0000_0000_0000_0000_0000_0000);
    assert(pow256(16) == 0x1_0000_0000_0000_0000_0000_0000_0000_0000);
    assert(pow256(17) == 0x100_0000_0000_0000_0000_0000_0000_0000_0000);
    assert(pow256(18) == 0x1_0000_0000_0000_0000_0000_0000_0000_0000_0000);
    assert(pow256(19) == 0x100_0000_0000_0000_0000_0000_0000_0000_0000_0000);
    assert(pow256(20) == 0x1_0000_0000_0000_0000_0000_0000_0000_0000_0000_0000);
    assert(pow256(21) == 0x100_0000_0000_0000_0000_0000_0000_0000_0000_0000_0000);
    assert(pow256(22) == 0x1_0000_0000_0000_0000_0000_0000_0000_0000_0000_0000_0000);
    assert(pow256(23) == 0x100_0000_0000_0000_0000_0000_0000_0000_0000_0000_0000_0000);
    assert(pow256(24) == 0x1_0000_0000_0000_0000_0000_0000_0000_0000_0000_0000_0000_0000);
    assert(pow256(25) == 0x100_0000_0000_0000_0000_0000_0000_0000_0000_0000_0000_0000_0000);
    assert(pow256(26) == 0x1_0000_0000_0000_0000_0000_0000_0000_0000_0000_0000_0000_0000_0000);
    assert(pow256(27) == 0x100_0000_0000_0000_0000_0000_0000_0000_0000_0000_0000_0000_0000_0000);
    assert(pow256(28)
        == 0x1_0000_0000_0000_0000_0000_0000_0000_0000_0000_0000_0000_0000_0000_0000);
    assert(pow256(29)
        == 0x100_0000_0000_0000_0000_0000_0000_0000_0000_0000_0000_0000_0000_0000_0000);
    assert(pow256(30)
        == 0x1_0000_0000_0000_0000_0000_0000_0000_0000_0000_0000_0000_0000_0000_0000_0000);
    assert(pow256(31)
        == 0x100_0000_0000_0000_0000_0000_0000_0000_0000_0000_0000_0000_0000_0000_0000_0000);
    assert(pow256(32)
        == 0x1_0000_0000_0000_0000_0000_0000_0000_0000_0000_0000_0000_0000_0000_0000_0000_0000);
}

/// A byte string of length n denotes a value below 256^n.
pub proof fn lemma_bytes_val_bound(s: Seq<u8>)
    ensures
        bytes_val(s) < pow256(s.len()),
    decreases s.len(),
{
    if s.len() == 0 {
    } else {
        lemma_bytes_val_bound(s.skip(1));
        assert(bytes_val(s) == s[0] + 256 * bytes_val(s.skip(1)));
        assert(256 * bytes_val(s.skip(1)) <= 256 * (pow256((s.len() - 1) as nat) - 1));
    }
}

/// Splitting a byte string at position k splits its value at weight 256^k.
pub proof fn lemma_bytes_val_split(s: Seq<u8>, k: nat)
    requires
        k <= s.len(),
    ensures
        bytes_val(s) == bytes_val(s.take(k as int)) + pow256(k) * bytes_val(s.skip(k as int)),
    decreases k,
{
    if k == 0 {
        assert(s.take(0).len() == 0);
        assert(s.skip(0) =~= s);
        assert(bytes_val(s.take(0)) == 0);
        assert(pow256(0) == 1);
        assert(1 * bytes_val(s) == bytes_val(s)) by (nonlinear_arith);
    } else {
        lemma_bytes_val_split(s.skip(1), (k - 1) as nat);
        assert(s.skip(1).take(k - 1) =~= s.take(k as int).skip(1));
        assert(s.skip(1).skip(k - 1) =~= s.skip(k as int));
        assert(bytes_val(s) == s[0] + 256 * bytes_val(s.skip(1)));
        assert(bytes_val(s.take(k as int)) == s[0] + 256 * bytes_val(s.take(k as int).skip(1)));
        let x = bytes_val(s.take(k as int).skip(1)) as int;
        let y = bytes_val(s.skip(k as int)) as int;
        let p = pow256((k - 1) as nat) as int;
        assert(256 * (x + p * y) == 256 * x + 256 * (p * y)) by {
            lemma_mul_is_distributive_add(256, x, p * y);
        }
        assert(256 * (p * y) == (256 * p) * y) by {
            lemma_mul_is_associative(256, p, y);
        }
        assert(bytes_val(s.skip(1)) == x + p * y);
        assert(pow256(k) == 256 * p);
        assert(bytes_val(s) == s[0] as nat + 256 * x + (256 * p) * y);
    }
}

/// Appending one byte adds it at the weight of the old length.
pub proof fn lemma_bytes_val_push(s: Seq<u8>, b: u8)
    ensures
        bytes_val(s.push(b)) == bytes_val(s) + pow256(s.len()) * b,
{
    lemma_bytes_val_split(s.push(b), s.len());
    assert(s.push(b).take(s.len() as int) =~= s);
    assert(s.push(b).skip(s.len() as int) =~= seq![b]);
    assert(bytes_val(seq![b]) == b + 256 * bytes_val(seq![b].skip(1)));
    assert(seq![b].skip(1).len() == 0);
}

/// Adds two u128 values, returning the 128-bit truncated sum and a carry bit.
pub(crate) fn add_carry(x: u128, y: u128) -> (r: (u128, u8))
    ensures
        r.0 as nat + r.1 as nat * pow256(16) == x + y,
        r.1 <= 1,
{
    proof {
        lemma_pow256_values();
    }
    if x <= u128::MAX - y {
        (x + y, 0)
    } else {
        ((x - (u128::MAX - y)) - 1, 1)
    }
}

/// Full 64x64 -> 128 bit multiplication.
pub(crate) fn mul_u64(x: u64, y: u64) -> (r: u128)
    ensures
        r as nat == x as nat * y as nat,
{
    proof {
        assert(x as nat * y as nat <= 0xffff_ffff_ffff_ffff * 0xffff_ffff_ffff_ffff)
            by (nonlinear_arith)
            requires
                x as nat <= 0xffff_ffff_ffff_ffff,
                y as nat <= 0xffff_ffff_ffff_ffff,
        ;
    }
    (x as u128) * (y as u128)
}

/// Recomposes `n <= 16` little-endian bytes starting at `start` into a u128.
pub fn le_bytes_to_u128(bytes: &Vec<u8>, start: usize, n: usize) -> (r: u128)
    requires
        start + n <= bytes@.len(),
        n <= 16,
    ensures
        r as nat == bytes_val(bytes@.subrange(start as int, start + n)),
{
    proof {
        lemma_pow256_values();
    }
    let len = bytes.len();
    let mut r: u128 = 0;
    let mut i: usize = n;
    while i > 0
        invariant
            i <= n,
            n <= 16,
            start + n <= bytes@.len(),
            bytes@.len() == len,
            r as nat == bytes_val(bytes@.subrange(start + i, start + n)),
            (r as nat) < pow256((n - i) as nat),
            pow256(16) == 0x1_0000_0000_0000_0000_0000_0000_0000_0000,
        decreases i,
    {
        i = i - 1;
        let sub = Ghost(bytes@.subrange(start + i, start + n));
        proof {
            lemma_pow256_increases((n - i - 1) as nat, 15);
            assert(pow256(15) == 0x100_0000_0000_0000_0000_0000_0000_0000) by {
                lemma_pow256_values();
            }
            assert(pow256((n - i) as nat) == 256 * pow256((n - i - 1) as nat));
            assert((r as nat) < pow256(15));
            assert(sub@[0] == bytes@[start + i]);
            assert(sub@.skip(1) =~= bytes@.subrange(start + i + 1, start + n));
        }
        let b = bytes[start + i];
        r = r * 256 + b as u128;
        proof {
            assert(r as nat == bytes_val(sub@));
            lemma_bytes_val_bound(sub@);
        }
    }
    proof {
        assert(bytes@.subrange(start as int, start + n) =~= bytes@.subrange(
            start + 0,
            start + n,
        ));
    }
    r
}

/// Decomposes a u128 below 256^n into exactly n little-endian bytes.
pub fn u128_to_le_bytes(x: u128, n: usize) -> (r: Vec<u8>)
    requires
        n <= 16,
        (x as nat) < pow256(n as nat),
    ensures
        r@.len() == n,
        bytes_val(r@) == x as nat,
{
    let mut r: Vec<u8> = Vec::new();
    let mut v: u128 = x;
    let mut i: usize = 0;
    proof {
        assert(pow256(0) == 1);
        assert(x as nat * 1 == x as nat) by (nonlinear_arith);
    }
    while i < n
        invariant
            i <= n,
            r@.len() == i,
            bytes_val(r@) + v as nat * pow256(i as nat) == x as nat,
            (v as nat) < pow256((n - i) as nat),
        decreases n - i,
    {
        let b: u8 = (v % 256) as u8;
        let ghost old_r = r@;
        let ghost old_v = v as nat;
        r.push(b);
        v = v / 256;
        proof {
            lemma_bytes_val_push(old_r, b);
            let p = pow256(i as nat) as int;
            assert(old_v == 256 * (old_v / 256) + old_v % 256);
            assert(old_v * p == (256 * (old_v / 256) + old_v % 256) * p);
            assert((256 * (old_v / 256) + old_v % 256) * p == (256 * (old_v / 256)) * p + (old_v
                % 256) * p) by (nonlinear_arith);
            assert((256 * (old_v / 256)) * p == (old_v / 256) * (256 * p)) by (nonlinear_arith);
            assert(bytes_val(r@) == bytes_val(old_r) + p * b);
            assert(p * b == b * p) by (nonlinear_arith);
            assert(pow256((i + 1) as nat) == 256 * p);
            // the remaining value shrinks by one byte width
            assert(old_v < 256 * pow256((n - i - 1) as nat));
            assert(old_v / 256 < pow256((n - i - 1) as nat));
        }
        i = i + 1;
    }
    proof {
        assert(pow256(0) == 1);
        assert(v as nat * 1 == v as nat) by (nonlinear_arith);
    }
    r
}

/// Computes 256^n for n small enough that the power fits a u128.
pub fn pow256_u128(n: usize) -> (r: u128)
    requires
        n <= 15,
    ensures
        r as nat == pow256(n as nat),
{
    proof {
        lemma_pow256_values();
    }
    let mut r: u128 = 1;
    let mut i: usize = 0;
    while i < n
        invariant
            i <= n,
            n <= 15,
            r as nat == pow256(i as nat),
        decreases n - i,
    {
        proof {
            lemma_pow256_increases(i as nat, 14);
            assert(pow256(14) == 0x1_0000_0000_0000_0000_0000_0000_0000) by {
                lemma_pow256_values();
            }
        }
        r = r * 256;
        i = i + 1;
    }
    r
}

/// A 256-bit unsigned word, canonically 32 little-endian bytes.
#[derive(Clone, Debug)]
pub struct Word {
    pub bytes: Vec<u8>,
}

impl Word {
    /// The canonical representation holds exactly 32 bytes.
    pub open spec fn wf(self) -> bool {
        self.bytes@.len() == 32
    }

    /// The unsigned integer this word denotes.
    pub open spec fn value(self) -> nat {
        bytes_val(self.bytes@)
    }

    /// The low 128 bits.
    pub open spec fn lo(self) -> nat {
        bytes_val(self.bytes@.take(16))
    }

    /// The high 128 bits.
    pub open spec fn hi(self) -> nat {
        bytes_val(self.bytes@.skip(16))
    }

    /// The i-th 64-bit limb, for i in 0..4.
    pub open spec fn limb64(self, i: int) -> nat {
        bytes_val(self.bytes@.subrange(8 * i, 8 * i + 8))
    }

    pub fn from_le_bytes(bytes: Vec<u8>) -> (r: Word)
        requires
            bytes@.len() == 32,
        ensures
            r.wf(),
            r.bytes@ == bytes@,
    {
        Word { bytes }
    }

    pub fn zero() -> (r: Word)
        ensures
            r.wf(),
            r.value() == 0,
    {
        Self::from_u128_pair(0, 0)
    }

    /// The all-ones word, 2^256 - 1.
    pub fn max_word() -> (r: Word)
        ensures
            r.wf(),
            r.value() == pow256(32) - 1,
    {
        proof {
            lemma_pow256_values();
        }
        Self::from_u128_pair(0xffff_ffff_ffff_ffff_ffff_ffff_ffff_ffff, 0xffff_ffff_ffff_ffff_ffff_ffff_ffff_ffff)
    }

    pub fn from_u64(x: u64) -> (r: Word)
        ensures
            r.wf(),
            r.value() == x,
    {
        Self::from_u128_pair(x as u128, 0)
    }

    /// Builds the word `lo + hi * 2^128`.
    pub fn from_u128_pair(lo: u128, hi: u128) -> (r: Word)
        ensures
            r.wf(),
            r.value() == lo as nat + hi as nat * pow256(16),
            r.lo() == lo,
            r.hi() == hi,
    {
        proof {
            lemma_pow256_values();
        }
        let mut bytes = u128_to_le_bytes(lo, 16);
        let mut high_bytes = u128_to_le_bytes(hi, 16);
        let ghost lo_seq = bytes@;
        let ghost hi_seq = high_bytes@;
        bytes.append(&mut high_bytes);
        let r = Word { bytes };
        proof {
            assert(r.bytes@ =~= lo_seq + hi_seq);
            lemma_bytes_val_split(r.bytes@, 16);
            assert(r.bytes@.take(16) =~= lo_seq);
            assert(r.bytes@.skip(16) =~= hi_seq);
            assert(pow256(16) * (hi as nat) == (hi as nat) * pow256(16)) by (nonlinear_arith);
        }
        r
    }

    /// The low 128 bits, as a u128.
    pub fn lo_u128(&self) -> (r: u128)
        requires
            self.wf(),
        ensures
            r as nat == self.lo(),
    {
        let r = le_bytes_to_u128(&self.bytes, 0, 16);
        proof {
            assert(self.bytes@.subrange(0, 16) =~= self.bytes@.take(16));
        }
        r
    }

    /// The high 128 bits, as a u128.
    pub fn hi_u128(&self) -> (r: u128)
        requires
            self.wf(),
        ensures
            r as nat == self.hi(),
    {
        let r = le_bytes_to_u128(&self.bytes, 16, 16);
        proof {
            assert(self.bytes@.subrange(16, 32) =~= self.bytes@.skip(16));
        }
        r
    }

    /// The i-th 64-bit limb, as a u64.
    pub fn limb64_u64(&self, i: usize) -> (r: u64)
        requires
            self.wf(),
            i < 4,
        ensures
            r as nat == self.limb64(i as int),
    {
        let r = le_bytes_to_u128(&self.bytes, 8 * i, 8);
        proof {
            lemma_bytes_val_bound(self.bytes@.subrange(8 * i as int, 8 * i + 8));
            lemma_pow256_values();
            lemma_pow256_increases(8, 8);
        }
        r as u64
    }

    /// A word's value splits into its two 128-bit halves.
    pub proof fn lemma_value_halves(self)
        requires
            self.wf(),
        ensures
            self.value() == self.lo() + self.hi() * pow256(16),
            self.lo() < pow256(16),
            self.hi() < pow256(16),
            self.value() < pow256(32),
    {
        lemma_bytes_val_split(self.bytes@, 16);
        lemma_bytes_val_bound(self.bytes@.take(16));
        lemma_bytes_val_bound(self.bytes@.skip(16));
        lemma_bytes_val_bound(self.bytes@);
        assert(pow256(16) * self.hi() == self.hi() * pow256(16)) by (nonlinear_arith);
    }

    /// Limb recomposition is exact: the four 64-bit limbs are positional,
    /// without overlap or gap, and weigh back to the word's value.
    pub proof fn lemma_value_limbs(self)
        requires
            self.wf(),
        ensures
            self.value() == self.limb64(0) + self.limb64(1) * pow256(8) + self.limb64(2) * pow256(
                16,
            ) + self.limb64(3) * pow256(24),
    {
        lemma_pow256_values();
        self.lemma_value_halves();
        self.lemma_halves_limbs();
        let k = pow256(8) as int;
        let p = pow256(16) as int;
        let l2 = self.limb64(2) as int;
        let l3 = self.limb64(3) as int;
        assert((l2 + l3 * k) * p == l2 * p + l3 * (k * p)) by (nonlinear_arith);
        assert(k * p == pow256(24)) by (nonlinear_arith)
            requires
                k == 0x1_0000_0000_0000_0000,
                p == 0x1_0000_0000_0000_0000_0000_0000_0000_0000,
                pow256(24) == 0x1_0000_0000_0000_0000_0000_0000_0000_0000_0000_0000_0000_0000,
        ;
    }

    /// A 128-bit half splits into its two 64-bit limbs.
    pub proof fn lemma_halves_limbs(self)
        requires
            self.wf(),
        ensures
            self.lo() == self.limb64(0) + self.limb64(1) * pow256(8),
            self.hi() == self.limb64(2) + self.limb64(3) * pow256(8),
            self.limb64(0) < pow256(8),
            self.limb64(1) < pow256(8),
            self.limb64(2) < pow256(8),
            self.limb64(3) < pow256(8),
    {
        let s = self.bytes@;
        lemma_bytes_val_split(s.take(16), 8);
        assert(s.take(16).take(8) =~= s.subrange(0, 8));
        assert(s.take(16).skip(8) =~= s.subrange(8, 16));
        lemma_bytes_val_split(s.skip(16), 8);
        assert(s.skip(16).take(8) =~= s.subrange(16, 24));
        assert(s.skip(16).skip(8) =~= s.subrange(24, 32));
        lemma_bytes_val_bound(s.subrange(0, 8));
        lemma_bytes_val_bound(s.subrange(8, 16));
        lemma_bytes_val_bound(s.subrange(16, 24));
        lemma_bytes_val_bound(s.subrange(24, 32));
        assert(pow256(8) * self.limb64(1) == self.limb64(1) * pow256(8)) by (nonlinear_arith);
        assert(pow256(8) * self.limb64(3) == self.limb64(3) * pow256(8)) by (nonlinear_arith);
    }
}

} // verus!
