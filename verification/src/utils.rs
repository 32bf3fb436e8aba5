//! Small helpers shared by the whole crate: clamping, list removal and
//! the seeded linear-congruential generator every random draw goes through.

use vstd::prelude::*;
use vstd::std_specs::cmp::PartialEqIs;
use vstd::std_specs::cmp::PartialEqSpec;
use vstd::std_specs::cmp::PartialOrdIs;
use vstd::std_specs::cmp::PartialOrdSpec;

verus! {

/// Index of the first element of `s` that equals `e`, or `s.len()` if there is none.
pub open spec fn first_match<T: PartialEq>(s: Seq<T>, e: T) -> int
    decreases s.len(),
{
    if s.len() == 0 {
        0
    } else if s[0].eq_spec(&e) {
        0
    } else {
        1 + first_match(s.subrange(1, s.len() as int), e)
    }
}

/// `first_match` is an index into `s` (or its length), nothing before it
/// matches, and the element at it does.
pub proof fn lemma_first_match<T: PartialEq>(s: Seq<T>, e: T)
    ensures
        0 <= first_match(s, e) <= s.len(),
        forall|j: int| 0 <= j < first_match(s, e) ==> !(#[trigger] s[j]).eq_spec(&e),
        first_match(s, e) < s.len() ==> s[first_match(s, e)].eq_spec(&e),
    decreases s.len(),
{
    if s.len() != 0 && !s[0].eq_spec(&e) {
        let t = s.subrange(1, s.len() as int);
        lemma_first_match(t, e);
        assert forall|j: int| 0 <= j < first_match(s, e) implies !(#[trigger] s[j]).eq_spec(&e) by {
            if j > 0 {
                assert(s[j] == t[j - 1]);
            }
        }
        assert(s[first_match(s, e)] == t[first_match(t, e)] || first_match(s, e) == s.len());
    }
}

/// Removes the first element equal to `e` and reports whether one was found.
pub fn try_remove_item<T: PartialEq>(vec: &mut Vec<T>, e: &T) -> (found: bool)
    requires
        T::obeys_eq_spec(),
    ensures
        found == (first_match(old(vec)@, *e) < old(vec)@.len()),
        found ==> final(vec)@ == old(vec)@.remove(first_match(old(vec)@, *e)),
        !found ==> final(vec)@ == old(vec)@,
{
    let mut i: usize = 0;
    while i < vec.len()
        invariant
            T::obeys_eq_spec(),
            i <= vec.len(),
            vec@ == old(vec)@,
            forall|j: int| 0 <= j < i ==> !(#[trigger] vec@[j]).eq_spec(e),
        decreases vec.len() - i,
    {
        if vec[i] == *e {
            proof {
                lemma_first_match(vec@, *e);
            }
            let _ = vec.remove(i);
            return true;
        }
        i += 1;
    }
    proof {
        lemma_first_match(vec@, *e);
    }
    false
}

/// The larger of `value` and `min`.
pub fn clamp_min<T: PartialOrd>(value: T, min: T) -> (r: T)
    ensures
        T::obeys_partial_cmp_spec() ==> r == (if value.is_lt(&min) { min } else { value }),
{
    if value < min {
        min
    } else {
        value
    }
}

/// The smaller of `value` and `max`.
pub fn clamp_max<T: PartialOrd>(value: T, max: T) -> (r: T)
    ensures
        T::obeys_partial_cmp_spec() ==> r == (if value.is_gt(&max) { max } else { value }),
{
    if value > max {
        max
    } else {
        value
    }
}

/// `value` restricted to the closed range from `min` to `max`.
pub fn clamp<T: PartialOrd>(value: T, min: T, max: T) -> (r: T)
    ensures
        T::obeys_partial_cmp_spec() ==> r == (if value.is_lt(&min) {
            min
        } else if value.is_gt(&max) {
            max
        } else {
            value
        }),
{
    if value < min {
        min
    } else if value > max {
        max
    } else {
        value
    }
}

/// Multiplier of the generator.
pub const RNG_MULTIPLIER: u32 = 22695477;

/// Increment of the generator.
pub const RNG_INCREMENT: u32 = 1;

/// The state that follows `seed`: `a * seed + c` modulo 2^32.
pub open spec fn lcg_step(a: u32, c: u32, seed: u32) -> u32 {
    ((a as int * seed as int + c as int) % 0x1_0000_0000) as u32
}

/// A linear-congruential generator. The same seed always yields the same draws.
#[derive(Debug, Clone, Copy, PartialEq, Eq)]
pub struct SimpleRng {
    pub seed: u32,
    pub a: u32,
    pub c: u32,
}

impl SimpleRng {
    /// The state after the next draw.
    pub open spec fn advanced(self) -> SimpleRng {
        SimpleRng { seed: lcg_step(self.a, self.c, self.seed), a: self.a, c: self.c }
    }

    /// The value `gen_range(min, max)` returns from this state.
    pub open spec fn peek_range(self, min: int, max: int) -> int {
        min + (self.advanced().seed as int) % (max - min)
    }

    pub fn seed_from_u32(seed: u32) -> (rng: SimpleRng)
        ensures
            rng == (SimpleRng { seed, a: RNG_MULTIPLIER, c: RNG_INCREMENT }),
    {
        SimpleRng { seed, a: RNG_MULTIPLIER, c: RNG_INCREMENT }
    }

    fn next(&mut self) -> (r: u32)
        ensures
            *final(self) == old(self).advanced(),
            r == final(self).seed,
    {
        assert(self.a as int * self.seed as int <= 0xFFFF_FFFF * 0xFFFF_FFFF) by (nonlinear_arith)
            requires
                0 <= self.a as int <= 0xFFFF_FFFF,
                0 <= self.seed as int <= 0xFFFF_FFFF,
        ;
        let wide: u64 = (self.a as u64) * (self.seed as u64) + (self.c as u64);
        let r: u32 = (wide % 0x1_0000_0000u64) as u32;
        self.seed = r;
        r
    }

    /// Draws a value from `min` up to, but not including, `max`.
    pub fn gen_range(&mut self, min: i32, max: i32) -> (r: i32)
        requires
            min < max,
        ensures
            *final(self) == old(self).advanced(),
            r == old(self).peek_range(min as int, max as int),
            min <= r < max,
    {
        let span: u32 = ((max as i64) - (min as i64)) as u32;
        let offset: u32 = self.next() % span;
        ((min as i64) + (offset as i64)) as i32
    }
}

/// A copy of a list of plain values.
pub fn copy_vec<T: Copy>(v: &Vec<T>) -> (r: Vec<T>)
    ensures
        r@ == v@,
{
    let mut r: Vec<T> = Vec::new();
    let mut i: usize = 0;
    while i < v.len()
        invariant
            i <= v@.len(),
            r@ == v@.subrange(0, i as int),
        decreases v@.len() - i,
    {
        r.push(v[i]);
        assert(r@ =~= v@.subrange(0, i + 1));
        i += 1;
    }
    assert(r@ =~= v@);
    r
}

/// Whether two texts are the same.
pub fn same_text(a: &str, b: &str) -> (r: bool)
    ensures
        r == (a@ == b@),
{
    let x: String = a.to_owned();
    let y: String = b.to_owned();
    x == y
}

} // verus!
