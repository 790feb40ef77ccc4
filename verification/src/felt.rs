//! Field elements: integers modulo the VM's prime, held as four 64-bit limbs.

use vstd::prelude::*;
use vstd::arithmetic::div_mod::{
    lemma_hoist_over_denominator, lemma_mod_multiples_vanish, lemma_multiply_divide_lt,
    lemma_small_mod,
};
use vstd::arithmetic::power2::{lemma2_to64, lemma_pow2_adds, lemma_pow2_pos, pow2};
use vstd::string::StringExecFns;

verus! {

/// The field's prime modulus: 2^251 + 17 * 2^192 + 1.
pub open spec fn prime() -> int {
    (0x800000000000011 as int) * 0x10000000000000000 * 0x10000000000000000 * 0x10000000000000000
        + 1
}

/// The prime's topmost 64-bit limb (the prime is this limb times 2^192, plus one).
pub const PRIME_HIGH_LIMB: u64 = 0x800000000000011;

/// The integer a four-limb little-endian representation stands for.
pub open spec fn limbs_value(l0: u64, l1: u64, l2: u64, l3: u64) -> int {
    (((l3 as int) * 0x10000000000000000 + l2 as int) * 0x10000000000000000 + l1 as int)
        * 0x10000000000000000 + l0 as int
}

/// A field element in canonical (reduced) form, as four little-endian
/// 64-bit limbs. Constructors only produce values below the prime.
#[derive(Clone, Copy, Debug, PartialEq, Eq, Structural)]
pub struct Felt {
    l0: u64,
    l1: u64,
    l2: u64,
    l3: u64,
}

impl Felt {
    /// The integer this element stands for.
    pub closed spec fn value(self) -> int {
        limbs_value(self.l0, self.l1, self.l2, self.l3)
    }

    /// Canonical form: the value is a reduced residue.
    pub open spec fn wf(self) -> bool {
        0 <= self.value() < prime()
    }

    pub fn from_u64(v: u64) -> (r: Felt)
        ensures
            r.value() == v as int,
            r.wf(),
    {
        Felt { l0: v, l1: 0, l2: 0, l3: 0 }
    }

    /// Builds an element from little-endian limbs; rejects values at or
    /// above the prime, so every `Felt` is canonical.
    pub fn from_limbs(l0: u64, l1: u64, l2: u64, l3: u64) -> (r: Option<Felt>)
        ensures
            match r {
                Some(f) => f.value() == limbs_value(l0, l1, l2, l3) && f.wf(),
                None => limbs_value(l0, l1, l2, l3) >= prime(),
            },
    {
        proof {
            let t1: int = (l3 as int) * 0x10000000000000000 + l2 as int;
            let t2: int = t1 * 0x10000000000000000 + l1 as int;
            assert(limbs_value(l0, l1, l2, l3) == t2 * 0x10000000000000000 + l0 as int);
            if l3 < PRIME_HIGH_LIMB {
                assert(t1 <= (PRIME_HIGH_LIMB - 1) * 0x10000000000000000 + 0xffffffffffffffff);
                assert(limbs_value(l0, l1, l2, l3) < prime());
            } else if l3 > PRIME_HIGH_LIMB {
                assert(t1 >= (PRIME_HIGH_LIMB + 1) * 0x10000000000000000);
                assert(limbs_value(l0, l1, l2, l3) >= prime());
            }
        }
        if l3 < PRIME_HIGH_LIMB || (l3 == PRIME_HIGH_LIMB && l2 == 0 && l1 == 0 && l0 == 0) {
            Some(Felt { l0, l1, l2, l3 })
        } else {
            None
        }
    }

    /// The value reduced modulo 2^64: the low limb.
    pub fn low_u64(&self) -> (r: u64)
        ensures
            r as int == self.value() % 0x10000000000000000,
    {
        proof {
            let high: int = ((self.l3 as int) * 0x10000000000000000 + self.l2 as int)
                * 0x10000000000000000 + self.l1 as int;
            assert(self.value() == 0x10000000000000000 * high + self.l0);
            lemma_mod_multiples_vanish(high, self.l0 as int, 0x10000000000000000);
            lemma_small_mod(self.l0 as nat, 0x10000000000000000);
        }
        self.l0
    }

    /// Canonical hexadecimal rendering: `0x` followed by lowercase digits
    /// with no leading zeros (`0x0` for zero).
    pub fn to_hex_string(&self) -> (r: String)
        ensures
            r@ == hex_string(self.value() as nat),
    {
        let mut s = String::from_str("0x");
        proof {
            reveal_strlit("0x");
            lemma2_to64();
        }
        if self.l3 > 0 {
            push_hex_u64(&mut s, self.l3);
            push_hex_padded(&mut s, self.l2, 16);
            push_hex_padded(&mut s, self.l1, 16);
            push_hex_padded(&mut s, self.l0, 16);
            proof {
                let v1: nat = (self.l3 as nat) * 0x10000000000000000 + self.l2 as nat;
                let v2: nat = v1 * 0x10000000000000000 + self.l1 as nat;
                lemma_hex_split64(self.l3 as nat, self.l2);
                lemma_hex_split64(v1, self.l1);
                lemma_hex_split64(v2, self.l0);
                assert(v2 * 0x10000000000000000 + self.l0 as nat == self.value() as nat);
                assert(s@ =~= seq!['0', 'x'] + hex_digits(self.value() as nat));
            }
        } else if self.l2 > 0 {
            push_hex_u64(&mut s, self.l2);
            push_hex_padded(&mut s, self.l1, 16);
            push_hex_padded(&mut s, self.l0, 16);
            proof {
                let v1: nat = (self.l2 as nat) * 0x10000000000000000 + self.l1 as nat;
                lemma_hex_split64(self.l2 as nat, self.l1);
                lemma_hex_split64(v1, self.l0);
                assert(v1 * 0x10000000000000000 + self.l0 as nat == self.value() as nat);
                assert(s@ =~= seq!['0', 'x'] + hex_digits(self.value() as nat));
            }
        } else if self.l1 > 0 {
            push_hex_u64(&mut s, self.l1);
            push_hex_padded(&mut s, self.l0, 16);
            proof {
                lemma_hex_split64(self.l1 as nat, self.l0);
                assert((self.l1 as nat) * 0x10000000000000000 + self.l0 as nat == self.value()
                    as nat);
                assert(s@ =~= seq!['0', 'x'] + hex_digits(self.value() as nat));
            }
        } else {
            push_hex_u64(&mut s, self.l0);
            proof {
                assert(self.value() == self.l0 as int);
                assert(s@ =~= seq!['0', 'x'] + hex_digits(self.value() as nat));
            }
        }
        s
    }
}

/// The lowercase hexadecimal digit for a value below sixteen.
pub open spec fn hex_char(d: int) -> char {
    if d == 0 { '0' } else if d == 1 { '1' } else if d == 2 { '2' } else if d == 3 { '3' }
    else if d == 4 { '4' } else if d == 5 { '5' } else if d == 6 { '6' } else if d == 7 { '7' }
    else if d == 8 { '8' } else if d == 9 { '9' } else if d == 10 { 'a' } else if d == 11 { 'b' }
    else if d == 12 { 'c' } else if d == 13 { 'd' } else if d == 14 { 'e' } else { 'f' }
}

/// Hexadecimal digits of `n`, most significant first, no leading zeros
/// (a single `'0'` for zero).
pub open spec fn hex_digits(n: nat) -> Seq<char>
    decreases n,
{
    if n < 16 {
        seq![hex_char(n as int)]
    } else {
        hex_digits(n / 16).push(hex_char((n % 16) as int))
    }
}

/// The canonical rendering of `n`: `0x` followed by its hex digits.
pub open spec fn hex_string(n: nat) -> Seq<char> {
    seq!['0', 'x'] + hex_digits(n)
}

/// Exactly `k` hexadecimal digits of `n`, most significant first,
/// zero-padded on the left.
pub open spec fn padded_hex_digits(n: nat, k: nat) -> Seq<char>
    decreases k,
{
    if k == 0 {
        Seq::empty()
    } else {
        padded_hex_digits(n / 16, (k - 1) as nat).push(hex_char((n % 16) as int))
    }
}

/// Splitting at a digit boundary: the digits of `h * 16^k + l` are the
/// digits of `h` followed by `l` padded to `k` digits.
proof fn lemma_hex_split(h: nat, l: nat, k: nat)
    requires
        h >= 1,
        l < pow2(4 * k),
    ensures
        hex_digits(h * pow2(4 * k) + l) == hex_digits(h) + padded_hex_digits(l, k),
    decreases k,
{
    if k == 0 {
        assert(pow2(0) == 1) by {
            lemma2_to64();
        }
        assert(hex_digits(h) + padded_hex_digits(l, 0) =~= hex_digits(h));
        assert(h * pow2(4 * k) + l == h) by (nonlinear_arith)
            requires
                pow2(4 * k) == 1,
                l == 0,
        ;
    } else {
        let p: nat = pow2(4 * k);
        let q: nat = pow2(4 * (k - 1) as nat);
        assert(p == 16 * q) by {
            lemma_pow2_adds(4, 4 * (k - 1) as nat);
            lemma2_to64();
        }
        lemma_pow2_pos(4 * (k - 1) as nat);
        let v: nat = h * p + l;
        assert(h * p >= p) by (nonlinear_arith)
            requires
                h >= 1,
                p >= 0,
        ;
        assert(h * p == (h * q) * 16) by (nonlinear_arith)
            requires
                p == 16 * q,
        ;
        assert(v / 16 == h * q + l / 16) by {
            lemma_hoist_over_denominator(l as int, (h * q) as int, 16);
        }
        assert(v % 16 == l % 16) by {
            lemma_mod_multiples_vanish((h * q) as int, l as int, 16);
        }
        assert(l / 16 < q) by {
            lemma_multiply_divide_lt(l as int, 16, q as int);
        }
        lemma_hex_split(h, l / 16, (k - 1) as nat);
        assert(hex_digits(v) == (hex_digits(h) + padded_hex_digits(l / 16, (k - 1) as nat)).push(
            hex_char((l % 16) as int),
        ));
        assert((hex_digits(h) + padded_hex_digits(l / 16, (k - 1) as nat)).push(
            hex_char((l % 16) as int),
        ) =~= hex_digits(h) + padded_hex_digits(l, k));
    }
}

/// The split lemma at the limb width: `h` followed by one zero-padded limb.
proof fn lemma_hex_split64(h: nat, l: u64)
    requires
        h >= 1,
    ensures
        hex_digits(h * 0x10000000000000000 + l as nat) == hex_digits(h) + padded_hex_digits(
            l as nat,
            16,
        ),
{
    lemma2_to64();
    lemma_hex_split(h, l as nat, 16);
    assert(h * pow2(64) == h * 0x10000000000000000);
}

/// Appends the digit for `d` to `s`.
fn push_hex_digit(s: &mut String, d: u64)
    requires
        d < 16,
    ensures
        final(s)@ == old(s)@.push(hex_char(d as int)),
{
    match d {
        0 => {
            s.append("0");
            proof {
                reveal_strlit("0");
                assert(old(s)@ + "0"@ =~= old(s)@.push('0'));
            }
        },
        1 => {
            s.append("1");
            proof {
                reveal_strlit("1");
                assert(old(s)@ + "1"@ =~= old(s)@.push('1'));
            }
        },
        2 => {
            s.append("2");
            proof {
                reveal_strlit("2");
                assert(old(s)@ + "2"@ =~= old(s)@.push('2'));
            }
        },
        3 => {
            s.append("3");
            proof {
                reveal_strlit("3");
                assert(old(s)@ + "3"@ =~= old(s)@.push('3'));
            }
        },
        4 => {
            s.append("4");
            proof {
                reveal_strlit("4");
                assert(old(s)@ + "4"@ =~= old(s)@.push('4'));
            }
        },
        5 => {
            s.append("5");
            proof {
                reveal_strlit("5");
                assert(old(s)@ + "5"@ =~= old(s)@.push('5'));
            }
        },
        6 => {
            s.append("6");
            proof {
                reveal_strlit("6");
                assert(old(s)@ + "6"@ =~= old(s)@.push('6'));
            }
        },
        7 => {
            s.append("7");
            proof {
                reveal_strlit("7");
                assert(old(s)@ + "7"@ =~= old(s)@.push('7'));
            }
        },
        8 => {
            s.append("8");
            proof {
                reveal_strlit("8");
                assert(old(s)@ + "8"@ =~= old(s)@.push('8'));
            }
        },
        9 => {
            s.append("9");
            proof {
                reveal_strlit("9");
                assert(old(s)@ + "9"@ =~= old(s)@.push('9'));
            }
        },
        10 => {
            s.append("a");
            proof {
                reveal_strlit("a");
                assert(old(s)@ + "a"@ =~= old(s)@.push('a'));
            }
        },
        11 => {
            s.append("b");
            proof {
                reveal_strlit("b");
                assert(old(s)@ + "b"@ =~= old(s)@.push('b'));
            }
        },
        12 => {
            s.append("c");
            proof {
                reveal_strlit("c");
                assert(old(s)@ + "c"@ =~= old(s)@.push('c'));
            }
        },
        13 => {
            s.append("d");
            proof {
                reveal_strlit("d");
                assert(old(s)@ + "d"@ =~= old(s)@.push('d'));
            }
        },
        14 => {
            s.append("e");
            proof {
                reveal_strlit("e");
                assert(old(s)@ + "e"@ =~= old(s)@.push('e'));
            }
        },
        _ => {
            s.append("f");
            proof {
                reveal_strlit("f");
                assert(old(s)@ + "f"@ =~= old(s)@.push('f'));
            }
        },
    }
}

/// Appends the digits of `x`, most significant first, no leading zeros.
fn push_hex_u64(s: &mut String, x: u64)
    ensures
        final(s)@ == old(s)@ + hex_digits(x as nat),
    decreases x,
{
    if x < 16 {
        push_hex_digit(s, x);
        proof {
            assert(old(s)@.push(hex_char(x as int)) =~= old(s)@ + hex_digits(x as nat));
        }
    } else {
        push_hex_u64(s, x / 16);
        push_hex_digit(s, x % 16);
        proof {
            assert((old(s)@ + hex_digits((x / 16) as nat)).push(hex_char((x % 16) as int)) =~= old(
                s,
            )@ + hex_digits(x as nat));
        }
    }
}

/// Appends exactly `k` digits of `x`, zero-padded on the left.
fn push_hex_padded(s: &mut String, x: u64, k: usize)
    requires
        (x as nat) < pow2(4 * k as nat),
    ensures
        final(s)@ == old(s)@ + padded_hex_digits(x as nat, k as nat),
    decreases k,
{
    if k == 0 {
        proof {
            assert(old(s)@ + padded_hex_digits(x as nat, 0) =~= old(s)@);
        }
    } else {
        proof {
            let q: nat = pow2(4 * (k - 1) as nat);
            assert(pow2(4 * k as nat) == 16 * q) by {
                lemma_pow2_adds(4, 4 * (k - 1) as nat);
                lemma2_to64();
            }
            assert((x as nat) / 16 < q) by {
                lemma_multiply_divide_lt(x as int, 16, q as int);
            }
        }
        push_hex_padded(s, x / 16, k - 1);
        push_hex_digit(s, x % 16);
        proof {
            assert((old(s)@ + padded_hex_digits((x / 16) as nat, (k - 1) as nat)).push(
                hex_char((x % 16) as int),
            ) =~= old(s)@ + padded_hex_digits(x as nat, k as nat));
        }
    }
}

} // verus!
