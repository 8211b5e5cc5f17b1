//! The chance that the offspring of two parents shows the dominant trait.

use vstd::prelude::*;

verus! {

/// A parent's genotype at one locus.
#[derive(Clone, Copy, Debug, PartialEq, Eq, Structural)]
pub enum Phenotype {
    Heterozygous,
    HomozygousDominant,
    HomozygousRecessive,
}

/// A pairing of two parents.
pub struct PhenotypeCombinator {
    pub p1: Phenotype,
    pub p2: Phenotype,
}

/// In quarters, the chance that an offspring carries the dominant allele.
pub open spec fn dominant_quarters_of(p1: Phenotype, p2: Phenotype) -> nat {
    match (p1, p2) {
        (Phenotype::HomozygousDominant, _) | (_, Phenotype::HomozygousDominant) => 4,
        (Phenotype::Heterozygous, Phenotype::Heterozygous) => 3,
        (Phenotype::Heterozygous, Phenotype::HomozygousRecessive) | (
            Phenotype::HomozygousRecessive,
            Phenotype::Heterozygous,
        ) => 2,
        (Phenotype::HomozygousRecessive, Phenotype::HomozygousRecessive) => 0,
    }
}

impl PhenotypeCombinator {
    pub fn new(p1: Phenotype, p2: Phenotype) -> (r: Self)
        ensures
            r.p1 == p1,
            r.p2 == p2,
    {
        PhenotypeCombinator { p1, p2 }
    }

    /// The chance that the offspring shows the dominant trait (AA or Aa),
    /// in quarters: 4 is certainty.
    pub fn dominant_quarters(&self) -> (r: u8)
        ensures
            r == dominant_quarters_of(self.p1, self.p2),
            r <= 4,
    {
        match (self.p1, self.p2) {
            (Phenotype::HomozygousDominant, _) | (_, Phenotype::HomozygousDominant) => 4,
            (Phenotype::Heterozygous, Phenotype::Heterozygous) => 3,
            (Phenotype::Heterozygous, Phenotype::HomozygousRecessive) | (
                Phenotype::HomozygousRecessive,
                Phenotype::Heterozygous,
            ) => 2,
            (Phenotype::HomozygousRecessive, Phenotype::HomozygousRecessive) => 0,
        }
    }

    /// The chance that the offspring shows the recessive trait (aa), in
    /// quarters.
    pub fn recessive_quarters(&self) -> (r: u8)
        ensures
            r + dominant_quarters_of(self.p1, self.p2) == 4,
    {
        4 - self.dominant_quarters()
    }
}

/// The expected number of offspring with the dominant trait, in quarters,
/// over the first `n` groups of couples: each group is a pairing and how
/// many couples have it, and each couple has `offspring` children.
pub open spec fn expected_quarters(groups: Seq<(PhenotypeCombinator, u32)>, offspring: nat, n: int) -> nat
    decreases n,
{
    if n <= 0 {
        0
    } else {
        expected_quarters(groups, offspring, n - 1) + (groups[n - 1].1 as nat) * dominant_quarters_of(
            groups[n - 1].0.p1,
            groups[n - 1].0.p2,
        ) * offspring
    }
}

/// The expected number of offspring that show the dominant trait, in
/// quarters: divide by four for the expectation.
pub fn expected_dominant_quarters(groups: &Vec<(PhenotypeCombinator, u32)>, offspring: u32) -> (r: u128)
    requires
        groups@.len() <= u32::MAX,
    ensures
        r == expected_quarters(groups@, offspring as nat, groups@.len() as int),
{
    let mut total: u128 = 0;
    let mut i: usize = 0;
    while i < groups.len()
        invariant
            groups@.len() <= u32::MAX,
            i <= groups@.len(),
            total == expected_quarters(groups@, offspring as nat, i as int),
            total <= i * 0x4_0000_0000_0000_0000,
        decreases groups@.len() - i,
    {
        let count = groups[i].1 as u128;
        let q = groups[i].0.dominant_quarters() as u128;
        proof {
            assert(count * q <= 4 * u32::MAX) by (nonlinear_arith)
                requires
                    count <= u32::MAX,
                    q <= 4,
            ;
            assert(count * q * (offspring as u128) <= 0x4_0000_0000_0000_0000) by (nonlinear_arith)
                requires
                    count <= u32::MAX,
                    q <= 4,
                    offspring <= u32::MAX,
            ;
            assert((i + 1) * 0x4_0000_0000_0000_0000 <= u128::MAX) by (nonlinear_arith)
                requires
                    i < u32::MAX,
            ;
        }
        total = total + count * q * (offspring as u128);
        i = i + 1;
    }
    total
}

/// The chance that two organisms drawn at random from `k` homozygous
/// dominant, `m` heterozygous and `n` homozygous recessive ones have a child
/// with the dominant trait, as numerator and denominator.
pub open spec fn mendel_ratio(k: nat, m: nat, n: nat) -> (nat, nat) {
    let t = k + m + n;
    (
        (4 * k * (t - 1) + 4 * k * (m + n) + 4 * m * n + 3 * m * (m - 1)) as nat,
        (4 * t * (t - 1)) as nat,
    )
}

/// Mendel's first law for a population of `k` homozygous dominant, `m`
/// heterozygous and `n` homozygous recessive organisms: the chance that a
/// random pair's child shows the dominant trait, as a fraction.
pub fn mendel_dominant_ratio(k: u32, m: u32, n: u32) -> (r: (u128, u128))
    requires
        k + m + n >= 2,
    ensures
        r.0 == mendel_ratio(k as nat, m as nat, n as nat).0,
        r.1 == mendel_ratio(k as nat, m as nat, n as nat).1,
        r.1 > 0,
{
    let k = k as u128;
    let m = m as u128;
    let n = n as u128;
    let t = k + m + n;
    proof {
        assert(m * (m - 1) < 0x1_0000_0000_0000_0000) by (nonlinear_arith)
            requires
                m <= u32::MAX,
        ;
        assert(4 * k * (t - 1) < 0x40_0000_0000_0000_0000) by (nonlinear_arith)
            requires
                k <= u32::MAX,
                2 <= t <= 3 * u32::MAX,
        ;
        assert(4 * k * (m + n) < 0x40_0000_0000_0000_0000) by (nonlinear_arith)
            requires
                k <= u32::MAX,
                m + n <= 2 * u32::MAX,
        ;
        assert(4 * m * n < 0x40_0000_0000_0000_0000) by (nonlinear_arith)
            requires
                m <= u32::MAX,
                n <= u32::MAX,
        ;
        assert(4 * t * (t - 1) < 0x40_0000_0000_0000_0000) by (nonlinear_arith)
            requires
                2 <= t <= 3 * u32::MAX,
        ;
        assert(4 * t * (t - 1) > 0) by (nonlinear_arith)
            requires
                2 <= t,
        ;
    }
    let mm: u128 = if m == 0 {
        0
    } else {
        m * (m - 1)
    };
    proof {
        assert(3 * mm == 3 * m * (m - 1)) by (nonlinear_arith)
            requires
                mm == if m == 0 { 0 } else { m * (m - 1) },
        ;
    }
    let numerator = 4 * k * (t - 1) + 4 * k * (m + n) + 4 * m * n + 3 * mm;
    let denominator = 4 * t * (t - 1);
    (numerator, denominator)
}

} // verus!
