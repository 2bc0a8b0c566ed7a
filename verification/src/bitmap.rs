//! A packed allocation bitmap: one bit per page, bit set means allocated.
//!
//! Both the physical memory manager and the virtual page allocator run the
//! same first-fit scan over such a bitmap: find the lowest run of `count`
//! clear bits, set them, and report its start. Freeing validates that every
//! bit of the range is set before clearing any of them.

use vstd::arithmetic::div_mod::{lemma_fundamental_div_mod, lemma_mod_bound};
use vstd::prelude::*;

use crate::fault::Fault;

verus! {

/// Bit `j` of `v` (bit 0 is the least significant).
pub open spec fn nth_bit(v: u8, j: u8) -> bool {
    (v >> j) & 1 == 1
}

/// The first `nbits` bits packed into `bytes`: bit `i` lives in byte `i / 8`
/// at position `i % 8`.
pub open spec fn bits_of(bytes: Seq<u8>, nbits: nat) -> Seq<bool> {
    Seq::new(nbits, |i: int| nth_bit(bytes[i / 8], (i % 8) as u8))
}

/// `count` bits starting at `start` all lie inside `s` and are clear.
pub open spec fn free_run(s: Seq<bool>, start: int, count: int) -> bool {
    &&& 0 <= start
    &&& start + count <= s.len()
    &&& forall|k: int| start <= k < start + count ==> !s[k]
}

/// Every bit of `[start, start + count)` is set in `s`.
pub open spec fn all_set(s: Seq<bool>, start: int, count: int) -> bool {
    forall|k: int| start <= k < start + count ==> s[k]
}

/// `s` with the `count` bits from `start` set: the bitmap after an
/// allocation of that run.
pub open spec fn spec_allocated(s: Seq<bool>, start: int, count: int) -> Seq<bool> {
    Seq::new(s.len(), |i: int| start <= i < start + count || s[i])
}

/// `s` with the `count` bits from `start` cleared: the bitmap after that
/// run is freed.
pub open spec fn spec_freed(s: Seq<bool>, start: int, count: int) -> Seq<bool> {
    Seq::new(s.len(), |i: int| !(start <= i < start + count) && s[i])
}

/// The number of clear bits in `s`.
pub open spec fn count_free(s: Seq<bool>) -> nat
    decreases s.len(),
{
    if s.len() == 0 {
        0
    } else {
        count_free(s.drop_last()) + if s.last() {
            0nat
        } else {
            1nat
        }
    }
}

/// There are never more clear bits than bits.
pub proof fn lemma_count_free_le(s: Seq<bool>)
    ensures
        count_free(s) <= s.len(),
    decreases s.len(),
{
    if s.len() > 0 {
        lemma_count_free_le(s.drop_last());
    }
}

/// Setting one clear bit lowers the free count by one; clearing one set bit
/// raises it by one.
pub proof fn lemma_count_free_update(s: Seq<bool>, i: int, v: bool)
    requires
        0 <= i < s.len(),
        s[i] != v,
    ensures
        count_free(s.update(i, v)) == if v {
            count_free(s) - 1
        } else {
            count_free(s) + 1int
        },
    decreases s.len(),
{
    let t = s.update(i, v);
    if i == s.len() - 1 {
        assert(t.drop_last() =~= s.drop_last());
    } else {
        assert(t.drop_last() =~= s.drop_last().update(i, v));
        lemma_count_free_update(s.drop_last(), i, v);
    }
}

/// Allocating a free run lowers the free count by exactly the run's
/// length.
pub proof fn lemma_count_free_allocated(s: Seq<bool>, start: int, count: int)
    requires
        0 <= count,
        free_run(s, start, count),
    ensures
        count_free(spec_allocated(s, start, count)) == count_free(s) - count,
    decreases count,
{
    if count <= 0 {
        assert(spec_allocated(s, start, count) =~= s);
    } else {
        let s1 = spec_allocated(s, start, count - 1);
        assert(spec_allocated(s, start, count) =~= s1.update(start + count - 1, true));
        lemma_count_free_allocated(s, start, count - 1);
        assert(!s1[start + count - 1]);
        lemma_count_free_update(s1, start + count - 1, true);
    }
}

/// A positive free count yields a free bit.
pub proof fn lemma_free_bit_exists(s: Seq<bool>)
    requires
        count_free(s) > 0,
    ensures
        exists|j: int| free_run(s, j, 1),
    decreases s.len(),
{
    if s.len() > 0 {
        if !s.last() {
            assert(free_run(s, s.len() - 1, 1));
        } else {
            lemma_free_bit_exists(s.drop_last());
            let j = choose|j: int| free_run(s.drop_last(), j, 1);
            assert(s.drop_last()[j] == s[j]);
            assert(free_run(s, j, 1));
        }
    }
}

/// How `|` and `&` with a one-bit mask act on each bit of a byte.
proof fn lemma_mask_bit(b: u8, k: u8, j: u8)
    by (bit_vector)
    requires
        k < 8,
        j < 8,
    ensures
        nth_bit(b | (1u8 << k), j) == (j == k || nth_bit(b, j)),
        nth_bit(b & !(1u8 << k), j) == (j != k && nth_bit(b, j)),
{
}

/// Byte and in-byte position of bit `bit`.
proof fn lemma_bit_split(bit: int, len: int, nbits: int)
    requires
        0 <= bit < nbits,
        nbits <= len * 8,
    ensures
        0 <= bit / 8 < len,
        0 <= bit % 8 < 8,
        bit == 8 * (bit / 8) + bit % 8,
{
    lemma_fundamental_div_mod(bit, 8);
    lemma_mod_bound(bit, 8);
}

/// A packed bitmap of `nbits` bits.
pub struct Bitmap {
    bytes: Vec<u8>,
    nbits: usize,
}

impl Bitmap {
    /// The bitmap's bits; bit set means allocated.
    pub closed spec fn view(&self) -> Seq<bool> {
        bits_of(self.bytes@, self.nbits as nat)
    }

    /// The byte store covers every bit.
    pub closed spec fn wf(&self) -> bool {
        self.nbits <= self.bytes@.len() * 8
    }

    /// A bitmap of `nbits` bits, all clear.
    pub fn new(nbits: usize) -> (r: Bitmap)
        requires
            nbits <= usize::MAX - 7,
        ensures
            r.wf(),
            r@.len() == nbits,
            forall|i: int| 0 <= i < nbits ==> !r@[i],
    {
        let nbytes = (nbits + 7) / 8;
        let mut bytes: Vec<u8> = Vec::new();
        let mut k: usize = 0;
        while k < nbytes
            invariant
                bytes@.len() == k,
                k <= nbytes,
                forall|i: int| 0 <= i < k ==> bytes@[i] == 0u8,
            decreases nbytes - k,
        {
            bytes.push(0u8);
            k = k + 1;
        }
        proof {
            crate::align::lemma_align_down(nbits as int + 7, 8);
            assert(nbits <= nbytes * 8);
            assert forall|i: int| 0 <= i < nbits implies !bits_of(bytes@, nbits as nat)[i] by {
                lemma_bit_split(i, nbytes as int, nbits as int);
                let j = (i % 8) as u8;
                assert(!nth_bit(0u8, j)) by (bit_vector)
                    requires
                        j < 8,
                ;
            }
        }
        Bitmap { bytes, nbits }
    }

    /// The bitmap's capacity in bits.
    pub fn bitmap_size(&self) -> (r: usize)
        ensures
            r == self@.len(),
    {
        self.nbits
    }

    /// Whether bit `bit` is set.
    pub fn get_bit(&self, bit: usize) -> (r: bool)
        requires
            self.wf(),
            bit < self@.len(),
        ensures
            r == self@[bit as int],
    {
        proof {
            lemma_bit_split(bit as int, self.bytes@.len() as int, self.nbits as int);
        }
        let byte = self.bytes[bit / 8];
        let j = (bit % 8) as u8;
        (byte >> j) & 1 == 1
    }

    /// Sets or clears bit `bit`.
    pub fn set_bit(&mut self, bit: usize, to: bool)
        requires
            old(self).wf(),
            bit < old(self)@.len(),
        ensures
            final(self).wf(),
            final(self)@ == old(self)@.update(bit as int, to),
    {
        proof {
            lemma_bit_split(bit as int, self.bytes@.len() as int, self.nbits as int);
        }
        let idx = bit / 8;
        let k = (bit % 8) as u8;
        let b = self.bytes[idx];
        let nb = if to {
            b | (1u8 << k)
        } else {
            b & !(1u8 << k)
        };
        self.bytes[idx] = nb;
        proof {
            let post = bits_of(self.bytes@, self.nbits as nat);
            let pre = old(self)@;
            assert forall|i: int| 0 <= i < self.nbits implies post[i] == pre.update(
                bit as int,
                to,
            )[i] by {
                lemma_bit_split(i, self.bytes@.len() as int, self.nbits as int);
                if i / 8 == idx {
                    lemma_mask_bit(b, k, (i % 8) as u8);
                    if to {
                        assert(self.bytes@[i / 8] == b | (1u8 << k));
                    } else {
                        assert(self.bytes@[i / 8] == b & !(1u8 << k));
                    }
                }
            }
            assert(post =~= pre.update(bit as int, to));
        }
    }

    /// The number of clear bits.
    pub fn free_count(&self) -> (r: usize)
        requires
            self.wf(),
        ensures
            r == count_free(self@),
    {
        let mut c: usize = 0;
        let mut i: usize = 0;
        while i < self.nbits
            invariant
                self.wf(),
                i <= self.nbits,
                self@.len() == self.nbits,
                c == count_free(self@.take(i as int)),
                c <= i,
            decreases self.nbits - i,
        {
            proof {
                let t = self@.take(i as int + 1);
                assert(t.drop_last() =~= self@.take(i as int));
                assert(t.last() == self@[i as int]);
                lemma_count_free_le(self@.take(i as int));
            }
            if !self.get_bit(i) {
                c = c + 1;
            }
            i = i + 1;
        }
        proof {
            assert(self@.take(self.nbits as int) =~= self@);
        }
        c
    }

    /// First-fit allocation: finds the lowest run of `count` clear bits, sets
    /// every bit of it, and returns the run's first bit. Returns `None`, and
    /// changes nothing, when no such run exists.
    pub fn take_bits(&mut self, count: usize) -> (r: Option<usize>)
        requires
            old(self).wf(),
        ensures
            final(self).wf(),
            final(self)@.len() == old(self)@.len(),
            match r {
                Some(bit) => {
                    &&& free_run(old(self)@, bit as int, count as int)
                    &&& forall|j: int| 0 <= j < bit ==> !free_run(old(self)@, j, count as int)
                    &&& final(self)@ == spec_allocated(old(self)@, bit as int, count as int)
                },
                None => {
                    &&& forall|j: int| !free_run(old(self)@, j, count as int)
                    &&& *final(self) == *old(self)
                },
            },
    {
        let ghost orig = old(self)@;
        let n = self.nbits;
        if count == 0 {
            proof {
                assert(Seq::new(orig.len(), |i: int| 0 <= i < 0 || orig[i]) =~= orig);
            }
            return Some(0);
        }
        let mut start: usize = 0;
        let mut len_run: usize = 0;
        while len_run < count
            invariant
                *self == *old(self),
                self.wf(),
                self@ == orig,
                self@.len() == n,
                1 <= count,
                len_run <= count,
                start + len_run <= n,
                forall|k: int| start <= k < start + len_run ==> !orig[k],
                forall|j: int| 0 <= j < start ==> !free_run(orig, j, count as int),
            decreases n - start - len_run,
        {
            if count > n - start {
                proof {
                    assert forall|j: int| !free_run(orig, j, count as int) by {
                        if 0 <= j < start {
                        } else if j >= start {
                            assert(j + count > n);
                        }
                    }
                }
                return None;
            }
            if self.get_bit(start + len_run) {
                proof {
                    let s = start as int;
                    let l = len_run as int;
                    assert forall|j: int| 0 <= j < s + l + 1 implies !free_run(
                        orig,
                        j,
                        count as int,
                    ) by {
                        if j >= s {
                            assert(orig[s + l]);
                            assert(j <= s + l < j + count);
                        }
                    }
                }
                start = start + len_run + 1;
                len_run = 0;
            } else {
                len_run = len_run + 1;
            }
        }
        // A clear run of length `count` starts at `start`; set it.
        let mut k: usize = 0;
        while k < count
            invariant
                self.wf(),
                self@.len() == orig.len(),
                self@.len() == n,
                k <= count,
                start + count <= n,
                free_run(orig, start as int, count as int),
                forall|j: int| 0 <= j < start ==> !free_run(orig, j, count as int),
                self@ == Seq::new(orig.len(), |i: int| start <= i < start + k || orig[i]),
            decreases count - k,
        {
            let ghost pre = self@;
            self.set_bit(start + k, true);
            proof {
                assert(self@ =~= Seq::new(
                    orig.len(),
                    |i: int| start <= i < start + k + 1 || orig[i],
                ));
            }
            k = k + 1;
        }
        Some(start)
    }

    /// Clears the `count` bits starting at `start` after checking that every
    /// one of them is set; reports a double free, and changes nothing, when
    /// any bit of the range is already clear.
    pub fn free_bits(&mut self, start: usize, count: usize) -> (r: Result<(), Fault>)
        requires
            old(self).wf(),
            start + count <= old(self)@.len(),
        ensures
            final(self).wf(),
            final(self)@.len() == old(self)@.len(),
            r is Ok <==> all_set(old(self)@, start as int, count as int),
            r is Ok ==> final(self)@ == spec_freed(old(self)@, start as int, count as int),
            r is Err ==> r == Err::<(), Fault>(Fault::DoubleFree) && *final(self) == *old(self),
    {
        let ghost orig = old(self)@;
        let mut k: usize = 0;
        while k < count
            invariant
                *self == *old(self),
                self.wf(),
                self@ == orig,
                k <= count,
                start + count <= orig.len(),
                forall|j: int| start <= j < start + k ==> orig[j],
            decreases count - k,
        {
            if !self.get_bit(start + k) {
                return Err(Fault::DoubleFree);
            }
            k = k + 1;
        }
        let mut k: usize = 0;
        while k < count
            invariant
                self.wf(),
                self@.len() == orig.len(),
                k <= count,
                start + count <= orig.len(),
                self@ == Seq::new(orig.len(), |i: int| !(start <= i < start + k) && orig[i]),
            decreases count - k,
        {
            self.set_bit(start + k, false);
            proof {
                assert(self@ =~= Seq::new(
                    orig.len(),
                    |i: int| !(start <= i < start + k + 1) && orig[i],
                ));
            }
            k = k + 1;
        }
        proof {
            assert(Seq::new(orig.len(), |i: int| !(start <= i < start + 0) && orig[i]) =~= orig);
        }
        Ok(())
    }
}

} // verus!
