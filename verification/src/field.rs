//! A 64-bit prime field: the residues modulo `P = 2^64 - 2^32 + 1`.
//!
//! The sponge works over this field. Each operation is proved against the
//! corresponding mathematical operation on residues (`add_f`, `mul_f`,
//! `pow_f`), and little-endian byte and bit decomposition are proved against
//! the base-256 and base-2 digit sequences of the residue.

use vstd::prelude::*;

verus! {

use vstd::arithmetic::div_mod::lemma_small_mod;
use vstd::arithmetic::div_mod::lemma_mod_add_multiples_vanish;
use vstd::arithmetic::div_mod::lemma_mod_division_less_than_divisor;

/// The field modulus, a prime.
pub const P: u64 = 0xFFFF_FFFF_0000_0001;

/// How many low-order bits of a field element are safe to expose as sponge
/// output: strictly fewer than the 64-bit width of the modulus, so that the
/// exposed bits are not biased by the modulus not being a power of two.
pub const USABLE_BITS: usize = 63;

/// How many whole low-order bytes fit into the safe bit capacity of
/// `USABLE_BITS` bits.
pub const USABLE_BYTES: usize = 7;

/// A field element: a residue modulo `P`.
#[derive(Clone, Copy, PartialEq, Eq, Structural, Debug)]
pub struct Felt {
    pub value: u64,
}

impl Felt {
    /// A field element is well formed when its representative is reduced.
    pub open spec fn wf(self) -> bool {
        self.value < P
    }

    /// The residue this element stands for.
    pub open spec fn val(self) -> int {
        self.value as int
    }
}

/// Addition of residues.
pub open spec fn add_f(a: int, b: int) -> int {
    (a + b) % (P as int)
}

/// Multiplication of residues.
pub open spec fn mul_f(a: int, b: int) -> int {
    (a * b) % (P as int)
}

/// Exponentiation of a residue by a natural exponent.
pub open spec fn pow_f(b: int, e: nat) -> int
    decreases e,
{
    if e == 0 {
        1int
    } else {
        mul_f(b, pow_f(b, (e - 1) as nat))
    }
}

/// The `n` low-order base-256 digits of `v`, least significant first.
pub open spec fn bytes_le(v: int, n: nat) -> Seq<int>
    decreases n,
{
    if n == 0 {
        Seq::empty()
    } else {
        seq![v % 256] + bytes_le(v / 256, (n - 1) as nat)
    }
}

/// The `n` low-order base-2 digits of `v`, least significant first.
pub open spec fn bits_le(v: int, n: nat) -> Seq<bool>
    decreases n,
{
    if n == 0 {
        Seq::empty()
    } else {
        seq![v % 2 == 1] + bits_le(v / 2, (n - 1) as nat)
    }
}

/// The zero element.
pub fn felt_zero() -> (r: Felt)
    ensures
        r.wf(),
        r.val() == 0,
{
    Felt { value: 0 }
}

/// Builds a field element from any machine integer by reducing it.
pub fn felt_new(v: u64) -> (r: Felt)
    ensures
        r.wf(),
        r.val() == v as int % (P as int),
{
    Felt { value: v % P }
}

/// Field addition.
pub fn felt_add(a: Felt, b: Felt) -> (r: Felt)
    requires
        a.wf(),
        b.wf(),
    ensures
        r.wf(),
        r.val() == add_f(a.val(), b.val()),
{
    let s: u128 = a.value as u128 + b.value as u128;
    let p128: u128 = P as u128;
    if s >= p128 {
        proof {
            lemma_small_mod((s - P) as nat, P as nat);
            lemma_mod_add_multiples_vanish(s as int - P as int, P as int);
        }
        Felt { value: (s - p128) as u64 }
    } else {
        proof {
            lemma_small_mod(s as nat, P as nat);
        }
        Felt { value: s as u64 }
    }
}

/// Field multiplication.
pub fn felt_mul(a: Felt, b: Felt) -> (r: Felt)
    requires
        a.wf(),
        b.wf(),
    ensures
        r.wf(),
        r.val() == mul_f(a.val(), b.val()),
{
    proof {
        assert((a.value as int) * (b.value as int) <= (u64::MAX as int) * (u64::MAX as int))
            by (nonlinear_arith)
            requires
                a.value <= u64::MAX,
                b.value <= u64::MAX,
        ;
    }
    let prod: u128 = (a.value as u128) * (b.value as u128);
    let r: u128 = prod % (P as u128);
    proof {
        lemma_mod_division_less_than_divisor(prod as int, P as int);
    }
    Felt { value: r as u64 }
}

/// Field exponentiation by a public constant exponent: the S-box `x ^ alpha`.
pub fn felt_pow(base: Felt, e: u64) -> (r: Felt)
    requires
        base.wf(),
    ensures
        r.wf(),
        r.val() == pow_f(base.val(), e as nat),
{
    let mut acc = Felt { value: 1 };
    let mut i: u64 = 0;
    while i < e
        invariant
            base.wf(),
            acc.wf(),
            i <= e,
            acc.val() == pow_f(base.val(), i as nat),
        decreases e - i,
    {
        acc = felt_mul(base, acc);
        i = i + 1;
    }
    acc
}

/// The `n` low-order bytes of the element, least significant first.
pub fn felt_bytes_le(f: Felt, n: usize) -> (r: Vec<u8>)
    ensures
        r@.len() == n,
        r@.map_values(|b: u8| b as int) == bytes_le(f.val(), n as nat),
{
    let mut out: Vec<u8> = Vec::new();
    let mut cur: u64 = f.value;
    let mut i: usize = 0;
    proof {
        assert(out@.map_values(|b: u8| b as int) + bytes_le(cur as int, n as nat) =~= bytes_le(
            f.val(),
            n as nat,
        ));
    }
    while i < n
        invariant
            i <= n,
            out@.len() == i,
            out@.map_values(|b: u8| b as int) + bytes_le(cur as int, (n - i) as nat) == bytes_le(
                f.val(),
                n as nat,
            ),
        decreases n - i,
    {
        let ghost pre = out@.map_values(|b: u8| b as int);
        let digit: u8 = (cur % 256) as u8;
        out.push(digit);
        proof {
            assert(out@.map_values(|b: u8| b as int) =~= pre + seq![digit as int]);
            assert(bytes_le(cur as int, (n - i) as nat) == seq![cur as int % 256] + bytes_le(
                cur as int / 256,
                (n - i - 1) as nat,
            ));
            assert(out@.map_values(|b: u8| b as int) + bytes_le(
                cur as int / 256,
                (n - i - 1) as nat,
            ) =~= pre + bytes_le(cur as int, (n - i) as nat));
        }
        cur = cur / 256;
        i = i + 1;
    }
    proof {
        assert(bytes_le(cur as int, 0) =~= Seq::<int>::empty());
        assert(out@.map_values(|b: u8| b as int) + Seq::<int>::empty() =~= out@.map_values(
            |b: u8| b as int,
        ));
    }
    out
}

/// The `n` low-order bits of the element, least significant first.
pub fn felt_bits_le(f: Felt, n: usize) -> (r: Vec<bool>)
    ensures
        r@.len() == n,
        r@ == bits_le(f.val(), n as nat),
{
    let mut out: Vec<bool> = Vec::new();
    let mut cur: u64 = f.value;
    let mut i: usize = 0;
    proof {
        assert(out@ + bits_le(cur as int, n as nat) =~= bits_le(f.val(), n as nat));
    }
    while i < n
        invariant
            i <= n,
            out@.len() == i,
            out@ + bits_le(cur as int, (n - i) as nat) == bits_le(f.val(), n as nat),
        decreases n - i,
    {
        let ghost pre = out@;
        let bit: bool = cur % 2 == 1;
        out.push(bit);
        proof {
            assert(bits_le(cur as int, (n - i) as nat) == seq![cur as int % 2 == 1] + bits_le(
                cur as int / 2,
                (n - i - 1) as nat,
            ));
            assert(out@ + bits_le(cur as int / 2, (n - i - 1) as nat) =~= pre + bits_le(
                cur as int,
                (n - i) as nat,
            ));
        }
        cur = cur / 2;
        i = i + 1;
    }
    proof {
        assert(bits_le(cur as int, 0) =~= Seq::<bool>::empty());
        assert(out@ + Seq::<bool>::empty() =~= out@);
    }
    out
}

} // verus!
