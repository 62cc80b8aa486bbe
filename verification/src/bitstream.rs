//! Big-endian bit-level reader and writer over a fixed byte buffer: the
//! foundation of the 20-byte wire frames. The first bit of a byte is its
//! most significant one, and multi-bit fields are read most significant
//! bit first.
use vstd::arithmetic::div_mod::lemma_div_denominator;
use vstd::arithmetic::power2::{lemma2_to64, lemma_pow2_adds, lemma_pow2_pos, pow2};
use vstd::bits::lemma_u32_shr_is_div;
use vstd::prelude::*;

verus! {

/// The mask that selects bit `i % 8` of a byte, counting from the most
/// significant bit.
pub open spec fn bit_mask(i: int) -> u8 {
    0x80u8 >> ((i % 8) as u8)
}

/// Bit `i` of the buffer, counting bits from the top of byte 0 downward.
pub open spec fn bit_at(data: Seq<u8>, i: int) -> bool {
    data[i / 8] & bit_mask(i) != 0
}

/// The unsigned value of the `count` bits starting at bit `start`, most
/// significant first.
pub open spec fn bits_value(data: Seq<u8>, start: int, count: nat) -> nat
    decreases count,
{
    if count == 0 {
        0
    } else {
        2 * bits_value(data, start, (count - 1) as nat) + if bit_at(
            data,
            start + count - 1,
        ) {
            1nat
        } else {
            0nat
        }
    }
}

/// A field of `count` bits is bounded by `pow2(count)`.
pub proof fn lemma_bits_value_bound(data: Seq<u8>, start: int, count: nat)
    ensures
        bits_value(data, start, count) < pow2(count),
    decreases count,
{
    if count == 0 {
        lemma_pow2_pos(0);
    } else {
        lemma_bits_value_bound(data, start, (count - 1) as nat);
        lemma_pow2_adds((count - 1) as nat, 1);
        lemma2_to64();
    }
}

/// Two buffers that agree on every bit of a field agree on the field's
/// value.
pub proof fn lemma_bits_value_congruence(d1: Seq<u8>, d2: Seq<u8>, start: int, count: nat)
    requires
        forall|j: int| start <= j < start + count ==> bit_at(d1, j) == bit_at(d2, j),
    ensures
        bits_value(d1, start, count) == bits_value(d2, start, count),
    decreases count,
{
    if count > 0 {
        lemma_bits_value_congruence(d1, d2, start, (count - 1) as nat);
    }
}

/// Bit `k` (counting from the least significant end) of a 32-bit value.
pub open spec fn value_bit(value: u32, k: nat) -> bool {
    (value as nat / pow2(k)) % 2 == 1
}

proof fn lemma_value_bit_of_mod(value: u32, count: nat, k: nat)
    requires
        k < count,
        count <= 32,
    ensures
        ((value as nat % pow2(count)) / pow2(k)) % 2 == (value as nat / pow2(k)) % 2,
{
    let v = value as int;
    let c = count;
    lemma_pow2_pos(c);
    lemma_pow2_pos(k);
    lemma_pow2_pos((c - k) as nat);
    lemma_pow2_pos((c - k - 1) as nat);
    let pc = pow2(c) as int;
    let pk = pow2(k) as int;
    let pck = pow2((c - k) as nat) as int;
    let pck1 = pow2((c - k - 1) as nat) as int;
    let q = v / pc;
    let r = v % pc;
    vstd::arithmetic::div_mod::lemma_fundamental_div_mod(v, pc);
    lemma_pow2_adds(k, (c - k) as nat);
    assert(pc * q == (pck * q) * pk) by (nonlinear_arith)
        requires
            pc == pk * pck,
    ;
    vstd::arithmetic::div_mod::lemma_hoist_over_denominator(r, pck * q, pow2(k));
    assert(v / pk == r / pk + pck * q);
    lemma_pow2_adds(1, (c - k - 1) as nat);
    lemma2_to64();
    assert(pck * q == 2 * (pck1 * q)) by (nonlinear_arith)
        requires
            pck == 2 * pck1,
    ;
    vstd::arithmetic::div_mod::lemma_mod_multiples_vanish(pck1 * q, r / pk, 2);
}

/// A big-endian bit reader over a byte buffer.
pub struct Biter {
    data: Vec<u8>,
    index: usize,
}

/// A big-endian bit writer over a byte buffer, sharing the reader's bit
/// addressing so that encoding and decoding are mirror images.
pub struct BiterMut {
    data: Vec<u8>,
    index: usize,
}

impl Biter {
    pub closed spec fn spec_data(self) -> Seq<u8> {
        self.data@
    }

    pub closed spec fn spec_index(self) -> int {
        self.index as int
    }

    pub fn new(data: Vec<u8>) -> (r: Biter)
        ensures
            r.spec_data() == data@,
            r.spec_index() == 0,
    {
        Biter { data, index: 0 }
    }

    pub fn reset(&mut self)
        ensures
            final(self).spec_data() == old(self).spec_data(),
            final(self).spec_index() == 0,
    {
        self.index = 0;
    }

    pub fn skip(&mut self, count: usize)
        requires
            old(self).spec_index() + count <= old(self).spec_data().len() * 8,
            old(self).spec_data().len() * 8 <= usize::MAX,
        ensures
            final(self).spec_data() == old(self).spec_data(),
            final(self).spec_index() == old(self).spec_index() + count,
    {
        self.index = self.index + count;
    }

    /// Consume the next `count` bits and return them as an unsigned value,
    /// most significant bit first.
    pub fn extract(&mut self, count: usize) -> (r: u32)
        requires
            count <= 32,
            old(self).spec_index() + count <= old(self).spec_data().len() * 8,
            old(self).spec_data().len() * 8 <= usize::MAX,
        ensures
            final(self).spec_data() == old(self).spec_data(),
            final(self).spec_index() == old(self).spec_index() + count,
            r as nat == bits_value(old(self).spec_data(), old(self).spec_index(), count as nat),
    {
        let r = extract_bits(&self.data, self.index, count);
        self.index = self.index + count;
        r
    }
}

/// Read `count` bits starting at bit `index`, most significant first.
fn extract_bits(data: &Vec<u8>, index: usize, count: usize) -> (r: u32)
    requires
        count <= 32,
        index + count <= data@.len() * 8,
        data@.len() * 8 <= usize::MAX,
    ensures
        r as nat == bits_value(data@, index as int, count as nat),
{
    let mut result: u32 = 0;
    let mut k: usize = 0;
    proof {
        lemma2_to64();
    }
    while k < count
        invariant
            k <= count,
            count <= 32,
            index + count <= data@.len() * 8,
            data@.len() * 8 <= usize::MAX,
            result as nat == bits_value(data@, index as int, k as nat),
            pow2(32) == 0x100000000,
        decreases count - k,
    {
        proof {
            lemma_bits_value_bound(data@, index as int, k as nat);
            lemma_pow2_adds(k as nat, 1);
            lemma2_to64();
            if k + 1 < 32 {
                vstd::arithmetic::power2::lemma_pow2_strictly_increases((k + 1) as nat, 32);
            }
        }
        let bit = index + k;
        let b: u32 = if data[bit / 8] & (0x80u8 >> ((bit % 8) as u8)) != 0 {
            1
        } else {
            0
        };
        assert(b == 1 <==> bit_at(data@, index + k));
        result = result * 2 + b;
        k = k + 1;
    }
    result
}

impl BiterMut {
    pub closed spec fn spec_data(self) -> Seq<u8> {
        self.data@
    }

    pub closed spec fn spec_index(self) -> int {
        self.index as int
    }

    pub fn new(data: Vec<u8>) -> (r: BiterMut)
        ensures
            r.spec_data() == data@,
            r.spec_index() == 0,
    {
        BiterMut { data, index: 0 }
    }

    /// Hand the written buffer back.
    pub fn into_data(self) -> (r: Vec<u8>)
        ensures
            r@ == self.spec_data(),
    {
        self.data
    }

    pub fn reset(&mut self)
        ensures
            final(self).spec_data() == old(self).spec_data(),
            final(self).spec_index() == 0,
    {
        self.index = 0;
    }

    pub fn skip(&mut self, count: usize)
        requires
            old(self).spec_index() + count <= old(self).spec_data().len() * 8,
            old(self).spec_data().len() * 8 <= usize::MAX,
        ensures
            final(self).spec_data() == old(self).spec_data(),
            final(self).spec_index() == old(self).spec_index() + count,
    {
        self.index = self.index + count;
    }

    /// Consume the next `count` bits and return them as an unsigned value,
    /// most significant bit first.
    pub fn extract(&mut self, count: usize) -> (r: u32)
        requires
            count <= 32,
            old(self).spec_index() + count <= old(self).spec_data().len() * 8,
            old(self).spec_data().len() * 8 <= usize::MAX,
        ensures
            final(self).spec_data() == old(self).spec_data(),
            final(self).spec_index() == old(self).spec_index() + count,
            r as nat == bits_value(old(self).spec_data(), old(self).spec_index(), count as nat),
    {
        let r = extract_bits(&self.data, self.index, count);
        self.index = self.index + count;
        r
    }

    /// Write the low `count` bits of `value` at the cursor, most significant
    /// bit first. Bits outside the written field keep their old values.
    pub fn assign(&mut self, count: usize, value: u32)
        requires
            count <= 32,
            old(self).spec_index() + count <= old(self).spec_data().len() * 8,
            old(self).spec_data().len() * 8 <= usize::MAX,
        ensures
            final(self).spec_data().len() == old(self).spec_data().len(),
            final(self).spec_index() == old(self).spec_index() + count,
            bits_value(final(self).spec_data(), old(self).spec_index(), count as nat) == (
            value as nat) % pow2(count as nat),
            forall|i: int|
                0 <= i < old(self).spec_data().len() * 8 && !(old(self).spec_index() <= i < old(
                    self,
                ).spec_index() + count) ==> bit_at(final(self).spec_data(), i) == bit_at(
                    old(self).spec_data(),
                    i,
                ),
    {
        let ghost orig = self.data@;
        let ghost start = self.index as int;
        proof {
            lemma_pow2_pos(count as nat);
            vstd::arithmetic::div_mod::lemma_basic_div(
                ((value as nat) % pow2(count as nat)) as int,
                pow2(count as nat) as int,
            );
        }
        let mut j: usize = 0;
        while j < count
            invariant
                j <= count,
                count <= 32,
                self.index == start,
                start + count <= self.data@.len() * 8,
                self.data@.len() * 8 <= usize::MAX,
                self.data@.len() == orig.len(),
                bits_value(self.data@, start, j as nat) == ((value as nat) % pow2(count as nat))
                    / pow2((count - j) as nat),
                forall|i: int|
                    0 <= i < orig.len() * 8 && !(start <= i < start + j) ==> bit_at(self.data@, i)
                        == bit_at(orig, i),
            decreases count - j,
        {
            let ghost before = self.data@;
            let i = count - 1 - j;
            let one: u32 = 1;
            let set_bit = value >> (i as u32) & one == 1;
            proof {
                lemma_u32_shr_is_div(value, i as u32);
                assert((value >> (i as u32)) & 1 == (value >> (i as u32)) % 2) by (bit_vector);
            }
            assert(set_bit == value_bit(value, i as nat));
            let bit = self.index + j;
            let p = bit / 8;
            let m: u8 = 0x80u8 >> ((bit % 8) as u8);
            let old_byte = self.data[p];
            if set_bit {
                self.data.set(p, old_byte | m);
            } else {
                self.data.set(p, old_byte & !m);
            }
            proof {
                assert forall|t: int| 0 <= t < orig.len() * 8 implies #[trigger] bit_at(
                    self.data@,
                    t,
                ) == (if t == start + j {
                    set_bit
                } else {
                    bit_at(before, t)
                }) by {
                    let tp = t / 8;
                    let tk = (t % 8) as u8;
                    let bk = ((start + j) % 8) as u8;
                    if tp == p as int {
                        let ob = before[tp];
                        let nb = self.data@[tp];
                        if set_bit {
                            assert(nb == ob | (0x80u8 >> bk));
                            lemma_u8_bit_set(ob, bk, tk);
                        } else {
                            assert(nb == ob & !(0x80u8 >> bk));
                            lemma_u8_bit_clear(ob, bk, tk);
                        }
                        if t != start + j {
                            assert(tk != bk) by {
                                assert(t == 8 * tp + (t % 8) && start + j == 8 * (p as int) + ((
                                start + j) % 8)) by {
                                    vstd::arithmetic::div_mod::lemma_fundamental_div_mod(t, 8);
                                    vstd::arithmetic::div_mod::lemma_fundamental_div_mod(
                                        start + j,
                                        8,
                                    );
                                }
                            }
                        }
                    } else {
                        assert(self.data@[tp] == before[tp]);
                    }
                }
                // the freshly written prefix has the right value
                let m = (value as nat) % pow2(count as nat);
                assert(bits_value(self.data@, start, j as nat) == bits_value(
                    before,
                    start,
                    j as nat,
                )) by {
                    lemma_bits_value_congruence(self.data@, before, start, j as nat);
                }
                assert(bits_value(self.data@, start, (j + 1) as nat) == 2 * bits_value(
                    self.data@,
                    start,
                    j as nat,
                ) + if bit_at(self.data@, start + j) {
                    1nat
                } else {
                    0nat
                });
                assert(m / pow2((count - j - 1) as nat) == 2 * (m / pow2((count - j) as nat)) + (m
                    / pow2((count - j - 1) as nat)) % 2) by {
                    lemma_pow2_pos((count - j - 1) as nat);
                    lemma_pow2_adds((count - j - 1) as nat, 1);
                    lemma2_to64();
                    lemma_div_denominator(m as int, pow2((count - j - 1) as nat) as int, 2);
                    vstd::arithmetic::div_mod::lemma_fundamental_div_mod(
                        (m / pow2((count - j - 1) as nat)) as int,
                        2,
                    );
                }
                assert((m / pow2((count - j - 1) as nat)) % 2 == (value as nat / pow2(
                    (count - j - 1) as nat,
                )) % 2) by {
                    lemma_value_bit_of_mod(value, count as nat, (count - j - 1) as nat);
                }
            }
            j = j + 1;
        }
        proof {
            lemma2_to64();
            assert(pow2(0) == 1);
            assert(bits_value(self.data@, start, count as nat) == ((value as nat) % pow2(
                count as nat,
            )) / pow2(0));
            assert(((value as nat) % pow2(count as nat)) / pow2(0) == (value as nat) % pow2(
                count as nat,
            ));
        }
        self.index = self.index + count;
    }
}

/// Setting one bit of a byte leaves the others alone.
proof fn lemma_u8_bit_set(x: u8, k: u8, l: u8)
    by (bit_vector)
    requires
        k < 8,
        l < 8,
    ensures
        ((x | (0x80u8 >> k)) & (0x80u8 >> l) != 0) == (k == l || (x & (0x80u8 >> l) != 0)),
{
}

/// Clearing one bit of a byte leaves the others alone.
proof fn lemma_u8_bit_clear(x: u8, k: u8, l: u8)
    by (bit_vector)
    requires
        k < 8,
        l < 8,
    ensures
        ((x & !(0x80u8 >> k)) & (0x80u8 >> l) != 0) == (k != l && (x & (0x80u8 >> l) != 0)),
{
}

} // verus!
