//! Weight policies: from usage counts to selection weights.
//!
//! A policy maps a vector of usage counts, one per candidate, to a vector of
//! non-negative selection weights of the same length.  The weights are
//! IEEE 754 binary64 values; the library computes and states exactly the
//! part of them that is integer-valued, and hands the caller the data of the
//! one binary64 operation that remains:
//!
//! * `Uniform` and `MinOnly` weights are exactly zero or one, so
//!   [`WeightType::get_weights`] returns their bit patterns outright.
//! * A `Linear { bias }` weight is `(max(counts) - c) + bias`; the engine
//!   returns the gaps `max(counts) - c` and the bias pattern, and the caller
//!   adds them in binary64.
//! * A `Boltzmann { beta }` weight is `exp(-beta * (c - min(counts)))`; the
//!   engine returns the gaps `c - min(counts)` and the beta pattern, and the
//!   caller exponentiates.
//!
//! [`normalize_weights`] then applies, still over bit patterns, the two
//! fallback rules that keep the sampling distribution well defined when a
//! weight is infinite or every weight is zero.

use vstd::prelude::*;

use crate::binary64::{is_below_zero, is_infinite, is_nan, is_zero, ONE_BITS, ZERO_BITS};
use crate::binary64::{check_below_zero, check_infinite, check_nan, check_zero};

verus! {

/// The policy that turns usage counts into selection weights.
///
/// `bias` and `beta` are the bit patterns of the binary64 parameters of the
/// `Linear` and `Boltzmann` policies.
#[derive(Clone, Copy, PartialEq, Eq, Structural, Debug)]
pub enum WeightType {
    /// Every candidate weighs one: pure random choice.
    Uniform,
    /// Only the least-used candidates weigh one; every other weighs zero.
    MinOnly,
    /// A candidate with count `c` weighs `(max(counts) - c) + bias`.
    Linear { bias: u64 },
    /// A candidate with count `c` weighs `exp(-beta * (c - min(counts)))`.
    Boltzmann { beta: u64 },
}

/// The least element of a sequence of counts (zero for an empty sequence).
pub open spec fn min_of(s: Seq<u32>) -> u32
    decreases s.len(),
{
    if s.len() == 0 {
        0u32
    } else if s.len() == 1 {
        s[0]
    } else if s.last() < min_of(s.drop_last()) {
        s.last()
    } else {
        min_of(s.drop_last())
    }
}

/// The greatest element of a sequence of counts (zero for an empty sequence).
pub open spec fn max_of(s: Seq<u32>) -> u32
    decreases s.len(),
{
    if s.len() == 0 {
        0u32
    } else if s.len() == 1 {
        s[0]
    } else if s.last() > max_of(s.drop_last()) {
        s.last()
    } else {
        max_of(s.drop_last())
    }
}

/// `min_of` is a lower bound of every element.
pub proof fn lemma_min_of_is_lower_bound(s: Seq<u32>)
    ensures
        forall|i: int| 0 <= i < s.len() ==> min_of(s) <= s[i],
    decreases s.len(),
{
    if s.len() > 1 {
        lemma_min_of_is_lower_bound(s.drop_last());
        assert(forall|i: int| 0 <= i < s.len() - 1 ==> s.drop_last()[i] == s[i]);
    }
}

/// `max_of` is an upper bound of every element.
pub proof fn lemma_max_of_is_upper_bound(s: Seq<u32>)
    ensures
        forall|i: int| 0 <= i < s.len() ==> s[i] <= max_of(s),
    decreases s.len(),
{
    if s.len() > 1 {
        lemma_max_of_is_upper_bound(s.drop_last());
        assert(forall|i: int| 0 <= i < s.len() - 1 ==> s.drop_last()[i] == s[i]);
    }
}

/// `min_of` is attained by some element of a non-empty sequence.
pub proof fn lemma_min_of_attained(s: Seq<u32>)
    requires
        s.len() > 0,
    ensures
        exists|i: int| 0 <= i < s.len() && s[i] == min_of(s),
    decreases s.len(),
{
    if s.len() == 1 {
        assert(s[0] == min_of(s));
    } else if s.last() < min_of(s.drop_last()) {
        assert(s[s.len() - 1] == min_of(s));
    } else {
        lemma_min_of_attained(s.drop_last());
        let i = choose|i: int| 0 <= i < s.drop_last().len() && s.drop_last()[i] == min_of(
            s.drop_last(),
        );
        assert(s[i] == min_of(s));
    }
}

/// The least element of a non-empty vector of counts.
pub fn min_count(counts: &Vec<u32>) -> (r: u32)
    requires
        counts@.len() > 0,
    ensures
        r == min_of(counts@),
{
    let mut r: u32 = counts[0];
    let mut i: usize = 1;
    while i < counts.len()
        invariant
            1 <= i <= counts@.len(),
            r == min_of(counts@.subrange(0, i as int)),
        decreases counts@.len() - i,
    {
        assert(counts@.subrange(0, i + 1).drop_last() =~= counts@.subrange(0, i as int));
        assert(counts@.subrange(0, i + 1).last() == counts@[i as int]);
        if counts[i] < r {
            r = counts[i];
        }
        i = i + 1;
    }
    assert(counts@.subrange(0, counts@.len() as int) =~= counts@);
    r
}

/// The greatest element of a non-empty vector of counts.
pub fn max_count(counts: &Vec<u32>) -> (r: u32)
    requires
        counts@.len() > 0,
    ensures
        r == max_of(counts@),
{
    let mut r: u32 = counts[0];
    let mut i: usize = 1;
    while i < counts.len()
        invariant
            1 <= i <= counts@.len(),
            r == max_of(counts@.subrange(0, i as int)),
        decreases counts@.len() - i,
    {
        assert(counts@.subrange(0, i + 1).drop_last() =~= counts@.subrange(0, i as int));
        assert(counts@.subrange(0, i + 1).last() == counts@[i as int]);
        if counts[i] > r {
            r = counts[i];
        }
        i = i + 1;
    }
    assert(counts@.subrange(0, counts@.len() as int) =~= counts@);
    r
}

impl WeightType {
    /// A policy is valid when its parameter passes validation: a `Linear`
    /// bias must be neither a NaN nor below zero, a `Boltzmann` beta must
    /// not be a NaN (it may be any other value, negative or infinite).
    pub open spec fn valid(self) -> bool {
        match self {
            WeightType::Uniform => true,
            WeightType::MinOnly => true,
            WeightType::Linear { bias } => !is_nan(bias) && !is_below_zero(bias),
            WeightType::Boltzmann { beta } => !is_nan(beta),
        }
    }

    /// Checks the policy parameter, returning the reason when it is refused.
    pub fn validate(&self) -> (r: Result<(), &'static str>)
        ensures
            r is Ok <==> self.valid(),
            (self matches WeightType::Linear { .. } && !self.valid()) ==> (r matches Err(m)
                && m@ == "bias must be positive"@),
            (self matches WeightType::Boltzmann { .. } && !self.valid()) ==> (r matches Err(m)
                && m@ == "beta must not be NaN"@),
    {
        match self {
            WeightType::Uniform => Ok(()),
            WeightType::MinOnly => Ok(()),
            WeightType::Linear { bias } => {
                if check_nan(*bias) || check_below_zero(*bias) {
                    Err("bias must be positive")
                } else {
                    Ok(())
                }
            },
            WeightType::Boltzmann { beta } => {
                if check_nan(*beta) {
                    Err("beta must not be NaN")
                } else {
                    Ok(())
                }
            },
        }
    }
}

/// The weights a policy assigns, carried exactly.
///
/// `Exact` weights are finished bit patterns.  The other two variants carry
/// the integer gaps together with the policy parameter; each weight is one
/// binary64 expression of its gap, written in the variant's documentation.
#[derive(Clone, Debug)]
pub enum Weights {
    /// The weight of candidate `i` is exactly `bits[i]`.
    Exact { bits: Vec<u64> },
    /// The weight of candidate `i` is `gaps[i] + bias`, computed in binary64.
    Linear { gaps: Vec<u32>, bias: u64 },
    /// The weight of candidate `i` is `exp(-beta * gaps[i])`, computed in binary64.
    Boltzmann { gaps: Vec<u32>, beta: u64 },
}

/// What [`WeightType::get_weights`] returns for a policy on given counts:
/// positionally matching weights, one per count.
pub open spec fn weights_for(policy: WeightType, counts: Seq<u32>, w: Weights) -> bool {
    match policy {
        WeightType::Uniform => w matches Weights::Exact { bits } && bits@.len() == counts.len()
            && forall|i: int| 0 <= i < counts.len() ==> bits@[i] == ONE_BITS,
        WeightType::MinOnly => w matches Weights::Exact { bits } && bits@.len() == counts.len()
            && forall|i: int|
                0 <= i < counts.len() ==> #[trigger] bits@[i] == (if counts[i] == min_of(counts) {
                    ONE_BITS
                } else {
                    ZERO_BITS
                }),
        WeightType::Linear { bias } => w matches Weights::Linear { gaps, bias: b }
            && b == bias && gaps@.len() == counts.len()
            && forall|i: int|
                0 <= i < counts.len() ==> #[trigger] gaps@[i] == max_of(counts) - counts[i],
        WeightType::Boltzmann { beta } => w matches Weights::Boltzmann { gaps, beta: b }
            && b == beta && gaps@.len() == counts.len()
            && forall|i: int|
                0 <= i < counts.len() ==> #[trigger] gaps@[i] == counts[i] - min_of(counts),
    }
}

impl WeightType {
    /// The weights this policy assigns to the given usage counts, in the
    /// exact carried form of [`Weights`].
    pub fn get_weights(&self, counts: &Vec<u32>) -> (r: Weights)
        requires
            counts@.len() > 0,
        ensures
            weights_for(*self, counts@, r),
    {
        match self {
            WeightType::Uniform => {
                let mut bits: Vec<u64> = Vec::new();
                let mut i: usize = 0;
                while i < counts.len()
                    invariant
                        i <= counts@.len(),
                        bits@.len() == i,
                        forall|j: int| 0 <= j < i ==> bits@[j] == ONE_BITS,
                    decreases counts@.len() - i,
                {
                    bits.push(ONE_BITS);
                    i = i + 1;
                }
                Weights::Exact { bits }
            },
            WeightType::MinOnly => {
                let min = min_count(counts);
                let mut bits: Vec<u64> = Vec::new();
                let mut i: usize = 0;
                while i < counts.len()
                    invariant
                        i <= counts@.len(),
                        min == min_of(counts@),
                        bits@.len() == i,
                        forall|j: int|
                            0 <= j < i ==> bits@[j] == (if counts@[j] == min_of(counts@) {
                                ONE_BITS
                            } else {
                                ZERO_BITS
                            }),
                    decreases counts@.len() - i,
                {
                    if counts[i] == min {
                        bits.push(ONE_BITS);
                    } else {
                        bits.push(ZERO_BITS);
                    }
                    i = i + 1;
                }
                Weights::Exact { bits }
            },
            WeightType::Linear { bias } => {
                let max = max_count(counts);
                proof {
                    lemma_max_of_is_upper_bound(counts@);
                }
                let mut gaps: Vec<u32> = Vec::new();
                let mut i: usize = 0;
                while i < counts.len()
                    invariant
                        i <= counts@.len(),
                        max == max_of(counts@),
                        forall|j: int| 0 <= j < counts@.len() ==> counts@[j] <= max_of(counts@),
                        gaps@.len() == i,
                        forall|j: int| 0 <= j < i ==> gaps@[j] == max_of(counts@) - counts@[j],
                    decreases counts@.len() - i,
                {
                    gaps.push(max - counts[i]);
                    i = i + 1;
                }
                Weights::Linear { gaps, bias: *bias }
            },
            WeightType::Boltzmann { beta } => {
                let min = min_count(counts);
                proof {
                    lemma_min_of_is_lower_bound(counts@);
                }
                let mut gaps: Vec<u32> = Vec::new();
                let mut i: usize = 0;
                while i < counts.len()
                    invariant
                        i <= counts@.len(),
                        min == min_of(counts@),
                        forall|j: int| 0 <= j < counts@.len() ==> min_of(counts@) <= counts@[j],
                        gaps@.len() == i,
                        forall|j: int| 0 <= j < i ==> gaps@[j] == counts@[j] - min_of(counts@),
                    decreases counts@.len() - i,
                {
                    gaps.push(counts[i] - min);
                    i = i + 1;
                }
                Weights::Boltzmann { gaps, beta: *beta }
            },
        }
    }
}

/// When all counts are equal, `MinOnly` does not zero everything out: every
/// count is then the minimum, so every candidate weighs one and the policy
/// degenerates to a uniform choice.
pub proof fn lemma_min_only_full_tie(counts: Seq<u32>, w: Weights)
    requires
        counts.len() > 0,
        forall|i: int, j: int|
            0 <= i < counts.len() && 0 <= j < counts.len() ==> counts[i] == counts[j],
        weights_for(WeightType::MinOnly, counts, w),
    ensures
        w matches Weights::Exact { bits } && forall|i: int|
            0 <= i < counts.len() ==> bits@[i] == ONE_BITS,
{
    lemma_min_of_attained(counts);
    let k = choose|k: int| 0 <= k < counts.len() && counts[k] == min_of(counts);
    assert(forall|i: int| 0 <= i < counts.len() ==> counts[i] == min_of(counts)) by {
        assert(forall|i: int| 0 <= i < counts.len() ==> counts[i] == counts[k]);
    }
}

/// Some weight in the sequence is infinite.
pub open spec fn any_infinite(s: Seq<u64>) -> bool {
    exists|i: int| 0 <= i < s.len() && is_infinite(s[i])
}

/// Every weight in the sequence is zero.
pub open spec fn all_zero(s: Seq<u64>) -> bool {
    forall|i: int| 0 <= i < s.len() ==> is_zero(s[i])
}

/// The fallback rules applied to raw weights before sampling.
///
/// If any weight is infinite, selection is restricted to the infinite
/// positions, uniformly: they weigh one, every other weighs zero.  Failing
/// that, if every weight is zero, all weights become one, so a draw is
/// still possible.  Otherwise the weights stand unchanged.
pub open spec fn normalized_weights(raw: Seq<u64>) -> Seq<u64> {
    if any_infinite(raw) {
        Seq::new(
            raw.len(),
            |i: int|
                if is_infinite(raw[i]) {
                    ONE_BITS
                } else {
                    ZERO_BITS
                },
        )
    } else if all_zero(raw) {
        Seq::new(raw.len(), |i: int| ONE_BITS)
    } else {
        raw
    }
}

/// However the raw weights came out, their normalized form always leaves a
/// candidate to draw: some normalized weight is nonzero, so a weighted draw
/// over them cannot fail for want of weight.
pub proof fn lemma_normalized_weights_have_a_nonzero(raw: Seq<u64>)
    requires
        raw.len() > 0,
    ensures
        normalized_weights(raw).len() == raw.len(),
        exists|i: int| 0 <= i < raw.len() && !is_zero(normalized_weights(raw)[i]),
{
    let n = normalized_weights(raw);
    assert(!is_zero(ONE_BITS)) by {
        assert(0x3ff0_0000_0000_0000u64 & 0x7fff_ffff_ffff_ffffu64 != 0) by (bit_vector);
    }
    if any_infinite(raw) {
        let k = choose|k: int| 0 <= k < raw.len() && is_infinite(raw[k]);
        assert(n[k] == ONE_BITS);
    } else if all_zero(raw) {
        assert(n[0] == ONE_BITS);
    } else {
        let k = choose|k: int| 0 <= k < raw.len() && !is_zero(raw[k]);
        assert(!is_zero(n[k]));
    }
}

/// Applies the fallback rules of [`normalized_weights`] to raw weight bit
/// patterns.
pub fn normalize_weights(raw: &Vec<u64>) -> (r: Vec<u64>)
    ensures
        r@ == normalized_weights(raw@),
{
    let mut has_infinite: bool = false;
    let mut all_are_zero: bool = true;
    let mut i: usize = 0;
    while i < raw.len()
        invariant
            i <= raw@.len(),
            has_infinite == any_infinite(raw@.subrange(0, i as int)),
            all_are_zero == all_zero(raw@.subrange(0, i as int)),
        decreases raw@.len() - i,
    {
        assert(raw@.subrange(0, i + 1).drop_last() =~= raw@.subrange(0, i as int));
        assert(raw@.subrange(0, i + 1).last() == raw@[i as int]);
        if check_infinite(raw[i]) {
            has_infinite = true;
        }
        if !check_zero(raw[i]) {
            all_are_zero = false;
        }
        proof {
            let head = raw@.subrange(0, i as int);
            let full = raw@.subrange(0, i + 1);
            assert(any_infinite(full) == (any_infinite(head) || is_infinite(raw@[i as int])))
                by {
                if any_infinite(head) {
                    let k = choose|k: int| 0 <= k < head.len() && is_infinite(head[k]);
                    assert(is_infinite(full[k]));
                }
                if is_infinite(raw@[i as int]) {
                    assert(is_infinite(full[i as int]));
                }
                if any_infinite(full) {
                    let k = choose|k: int| 0 <= k < full.len() && is_infinite(full[k]);
                    if k < i {
                        assert(is_infinite(head[k]));
                    }
                }
            }
        }
        i = i + 1;
    }
    assert(raw@.subrange(0, raw@.len() as int) =~= raw@);
    if has_infinite {
        let mut r: Vec<u64> = Vec::new();
        let mut i: usize = 0;
        while i < raw.len()
            invariant
                i <= raw@.len(),
                r@.len() == i,
                forall|j: int|
                    0 <= j < i ==> r@[j] == (if is_infinite(raw@[j]) {
                        ONE_BITS
                    } else {
                        ZERO_BITS
                    }),
            decreases raw@.len() - i,
        {
            if check_infinite(raw[i]) {
                r.push(ONE_BITS);
            } else {
                r.push(ZERO_BITS);
            }
            i = i + 1;
        }
        assert(r@ =~= normalized_weights(raw@));
        r
    } else if all_are_zero {
        let mut r: Vec<u64> = Vec::new();
        let mut i: usize = 0;
        while i < raw.len()
            invariant
                i <= raw@.len(),
                r@.len() == i,
                forall|j: int| 0 <= j < i ==> r@[j] == ONE_BITS,
            decreases raw@.len() - i,
        {
            r.push(ONE_BITS);
            i = i + 1;
        }
        assert(r@ =~= normalized_weights(raw@));
        r
    } else {
        let mut r: Vec<u64> = Vec::new();
        let mut i: usize = 0;
        while i < raw.len()
            invariant
                i <= raw@.len(),
                r@.len() == i,
                forall|j: int| 0 <= j < i ==> r@[j] == raw@[j],
            decreases raw@.len() - i,
        {
            r.push(raw[i]);
            i = i + 1;
        }
        assert(r@ =~= normalized_weights(raw@));
        r
    }
}

} // verus!
