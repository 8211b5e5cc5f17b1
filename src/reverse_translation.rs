//! Lazy enumeration of every RNA strand whose codons code for a protein.
//!
//! A cursor holds, per position, an index into that position's candidate
//! codons. Read as a mixed-radix number (leftmost position most significant)
//! the cursor counts the strands produced so far; each step emits the strand
//! it selects and then advances it like an odometer.

use vstd::arithmetic::div_mod::lemma_mul_mod_noop_left;
use vstd::prelude::*;

use crate::protein::{codon_amino, AminoAcid};
use crate::rna::{codons_of, lemma_codons_of_sound, Codon, RNA};
use crate::strands::Strand;
use crate::translation::{codon_at, translate_codons};

verus! {

/// The candidate codons of each position of a protein.
pub open spec fn candidates_of(p: Seq<AminoAcid>) -> Seq<Seq<Codon>> {
    Seq::new(p.len(), |i: int| codons_of(p[i]))
}

/// The product of the candidate counts of positions `j` up to (not
/// including) `n`.
pub open spec fn count_between(c: Seq<Seq<Codon>>, j: int, n: int) -> nat
    decreases n - j,
{
    if n <= j {
        1
    } else {
        count_between(c, j, n - 1) * c[n - 1].len()
    }
}

/// How many strands the enumeration yields: the product of all candidate
/// counts.
pub open spec fn combination_count(c: Seq<Seq<Codon>>) -> nat {
    count_between(c, 0, c.len() as int)
}

/// Each digit of the cursor picks one of its position's candidates.
pub open spec fn valid_cursor(c: Seq<Seq<Codon>>, d: Seq<usize>) -> bool {
    &&& d.len() == c.len()
    &&& forall|i: int| 0 <= i < d.len() ==> #[trigger] d[i] < c[i].len()
}

/// The first `n` digits of a cursor as a mixed-radix number.
pub open spec fn cursor_value_prefix(c: Seq<Seq<Codon>>, d: Seq<usize>, n: int) -> nat
    decreases n,
{
    if n <= 0 {
        0
    } else {
        cursor_value_prefix(c, d, n - 1) * c[n - 1].len() + d[n - 1] as nat
    }
}

/// The position of a cursor in the enumeration order.
pub open spec fn cursor_value(c: Seq<Seq<Codon>>, d: Seq<usize>) -> nat {
    cursor_value_prefix(c, d, d.len() as int)
}

/// The bases of the codons that the first `n` digits select.
pub open spec fn combination_prefix(c: Seq<Seq<Codon>>, d: Seq<usize>, n: int) -> Seq<RNA>
    decreases n,
{
    if n <= 0 {
        Seq::empty()
    } else {
        let codon = c[n - 1][d[n - 1] as int];
        combination_prefix(c, d, n - 1) + seq![codon.0, codon.1, codon.2]
    }
}

/// The strand that a cursor selects.
pub open spec fn combination(c: Seq<Seq<Codon>>, d: Seq<usize>) -> Seq<RNA> {
    combination_prefix(c, d, d.len() as int)
}

pub open spec fn lists_view(v: Seq<Vec<Codon>>) -> Seq<Seq<Codon>> {
    Seq::new(v.len(), |i: int| v[i]@)
}

proof fn lemma_value_prefix_eq(c: Seq<Seq<Codon>>, d1: Seq<usize>, d2: Seq<usize>, n: int)
    requires
        forall|k: int| 0 <= k < n ==> d1[k] == d2[k],
    ensures
        cursor_value_prefix(c, d1, n) == cursor_value_prefix(c, d2, n),
    decreases n,
{
    if n > 0 {
        lemma_value_prefix_eq(c, d1, d2, n - 1);
    }
}

proof fn lemma_zero_tail(c: Seq<Seq<Codon>>, d: Seq<usize>, j: int, n: int)
    requires
        0 <= j <= n <= c.len(),
        n <= d.len(),
        forall|k: int| j <= k < n ==> d[k] == 0,
    ensures
        cursor_value_prefix(c, d, n) == cursor_value_prefix(c, d, j) * count_between(c, j, n),
    decreases n - j,
{
    if n > j {
        lemma_zero_tail(c, d, j, n - 1);
        let v = cursor_value_prefix(c, d, j);
        let p = count_between(c, j, n - 1);
        let r = c[n - 1].len();
        assert(d[n - 1] == 0);
        assert(count_between(c, j, n) == p * r);
        assert(cursor_value_prefix(c, d, n) == v * p * r);
        assert(v * p * r == v * (p * r)) by (nonlinear_arith);
    } else {
        assert(count_between(c, j, n) == 1);
        assert(cursor_value_prefix(c, d, j) * 1 == cursor_value_prefix(c, d, j));
    }
}

proof fn lemma_max_tail(c: Seq<Seq<Codon>>, d: Seq<usize>, j: int, n: int)
    requires
        0 <= j <= n <= c.len(),
        n <= d.len(),
        forall|k: int| j <= k < n ==> #[trigger] d[k] + 1 == c[k].len(),
    ensures
        cursor_value_prefix(c, d, n) + 1 == (cursor_value_prefix(c, d, j) + 1) * count_between(
            c,
            j,
            n,
        ),
    decreases n - j,
{
    if n > j {
        lemma_max_tail(c, d, j, n - 1);
        let v = cursor_value_prefix(c, d, j);
        let w = cursor_value_prefix(c, d, n - 1);
        let p = count_between(c, j, n - 1);
        let r = c[n - 1].len() as int;
        assert(w + 1 == (v + 1) * p);
        assert(d[n - 1] + 1 == r);
        assert(count_between(c, j, n) == p * r);
        assert(cursor_value_prefix(c, d, n) == w * r + (r - 1));
        assert(w * r + (r - 1) + 1 == (w + 1) * r) by (nonlinear_arith);
        assert((v + 1) * p * r == (v + 1) * (p * r)) by (nonlinear_arith);
    } else {
        assert(count_between(c, j, n) == 1);
        assert((cursor_value_prefix(c, d, j) + 1) * 1 == cursor_value_prefix(c, d, j) + 1);
    }
}

proof fn lemma_value_bound(c: Seq<Seq<Codon>>, d: Seq<usize>, n: int)
    requires
        0 <= n <= c.len(),
        valid_cursor(c, d),
    ensures
        cursor_value_prefix(c, d, n) < count_between(c, 0, n),
    decreases n,
{
    if n > 0 {
        lemma_value_bound(c, d, n - 1);
        let w = cursor_value_prefix(c, d, n - 1) as int;
        let p = count_between(c, 0, n - 1) as int;
        let r = c[n - 1].len() as int;
        let x = d[n - 1] as int;
        assert(x < r);
        assert(w * r + x < p * r) by (nonlinear_arith)
            requires
                w < p,
                0 <= x < r,
                0 <= w,
        ;
    }
}

proof fn lemma_value_injective(c: Seq<Seq<Codon>>, d1: Seq<usize>, d2: Seq<usize>, n: int)
    requires
        0 <= n <= c.len(),
        valid_cursor(c, d1),
        valid_cursor(c, d2),
        cursor_value_prefix(c, d1, n) == cursor_value_prefix(c, d2, n),
    ensures
        forall|k: int| 0 <= k < n ==> d1[k] == d2[k],
    decreases n,
{
    if n > 0 {
        let w1 = cursor_value_prefix(c, d1, n - 1) as int;
        let w2 = cursor_value_prefix(c, d2, n - 1) as int;
        let r = c[n - 1].len() as int;
        let x1 = d1[n - 1] as int;
        let x2 = d2[n - 1] as int;
        assert(x1 < r && x2 < r);
        assert(w1 == w2 && x1 == x2) by (nonlinear_arith)
            requires
                w1 * r + x1 == w2 * r + x2,
                0 <= x1 < r,
                0 <= x2 < r,
                0 <= w1,
                0 <= w2,
        ;
        lemma_value_injective(c, d1, d2, n - 1);
    }
}

proof fn lemma_combination_prefix(c: Seq<Seq<Codon>>, d: Seq<usize>, n: int)
    requires
        0 <= n <= c.len(),
        valid_cursor(c, d),
    ensures
        combination_prefix(c, d, n).len() == 3 * n,
        forall|k: int|
            0 <= k < n ==> #[trigger] codon_at(combination_prefix(c, d, n), k) == c[k][d[k] as int],
    decreases n,
{
    if n > 0 {
        lemma_combination_prefix(c, d, n - 1);
        let s = combination_prefix(c, d, n);
        let t = combination_prefix(c, d, n - 1);
        assert forall|k: int| 0 <= k < n implies #[trigger] codon_at(s, k) == c[k][d[k] as int] by {
            if k < n - 1 {
                assert(codon_at(s, k) == codon_at(t, k));
            }
        }
    }
}

/// The enumeration's laws: strands at distinct steps differ, and every
/// strand has three bases per amino acid and translates, codon by codon,
/// back to the protein.
pub proof fn lemma_reverse_translations(p: Seq<AminoAcid>, d1: Seq<usize>, d2: Seq<usize>)
    requires
        valid_cursor(candidates_of(p), d1),
        valid_cursor(candidates_of(p), d2),
        cursor_value(candidates_of(p), d1) != cursor_value(candidates_of(p), d2),
    ensures
        combination(candidates_of(p), d1) != combination(candidates_of(p), d2),
        combination(candidates_of(p), d1).len() == 3 * p.len(),
        translate_codons(combination(candidates_of(p), d1)) == p,
{
    let c = candidates_of(p);
    let n = p.len() as int;
    lemma_combination_prefix(c, d1, n);
    lemma_combination_prefix(c, d2, n);
    let s1 = combination(c, d1);
    let s2 = combination(c, d2);
    assert(s1.len() / 3 == n);
    assert forall|k: int| 0 <= k < n implies #[trigger] translate_codons(s1)[k] == p[k] by {
        lemma_codons_of_sound(p[k]);
    }
    assert(translate_codons(s1) =~= p);
    if s1 == s2 {
        assert forall|k: int| 0 <= k < n implies d1[k] == d2[k] by {
            lemma_codons_of_sound(p[k]);
            assert(codon_at(s1, k) == codon_at(s2, k));
            assert(c[k][d1[k] as int] == c[k][d2[k] as int]);
        }
        lemma_value_prefix_eq(c, d1, d2, n);
    }
}

/// Moves the cursor one step on, odometer fashion; returns true when it ran
/// past the last combination (the cursor is then all zeros again).
fn advance(indexes: &mut Vec<usize>, lists: &Vec<Vec<Codon>>) -> (carried: bool)
    requires
        valid_cursor(lists_view(lists@), old(indexes)@),
    ensures
        valid_cursor(lists_view(lists@), final(indexes)@),
        !carried ==> cursor_value(lists_view(lists@), final(indexes)@) == cursor_value(
            lists_view(lists@),
            old(indexes)@,
        ) + 1,
        carried ==> cursor_value(lists_view(lists@), old(indexes)@) + 1 == combination_count(
            lists_view(lists@),
        ),
{
    let ghost c = lists_view(lists@);
    let ghost start = indexes@;
    let n = indexes.len();
    let mut j: usize = n;
    loop
        invariant
            c == lists_view(lists@),
            start == old(indexes)@,
            valid_cursor(c, start),
            n == start.len() == indexes@.len(),
            j <= n,
            forall|k: int| 0 <= k < j ==> indexes@[k] == start[k],
            forall|k: int| j <= k < n ==> indexes@[k] == 0,
            forall|k: int| j <= k < n ==> #[trigger] start[k] + 1 == c[k].len(),
        decreases j,
    {
        if j == 0 {
            proof {
                lemma_max_tail(c, start, 0, n as int);
                let q = count_between(c, 0, n as int);
                let z = cursor_value_prefix(c, start, 0);
                assert((z + 1) * q == q) by (nonlinear_arith)
                    requires
                        z == 0,
                ;
                assert forall|k: int| 0 <= k < n implies #[trigger] indexes@[k] < c[k].len() by {
                    assert(start[k] < c[k].len());
                }
            }
            return true;
        }
        j = j - 1;
        let v = indexes[j];
        assert(start[j as int] < c[j as int].len() && c[j as int] == lists@[j as int]@);
        if v < lists[j].len() - 1 {
            indexes.set(j, v + 1);
            proof {
                let d = indexes@;
                lemma_value_prefix_eq(c, d, start, j as int);
                lemma_zero_tail(c, d, j + 1, n as int);
                lemma_max_tail(c, start, j + 1, n as int);
                assert(cursor_value_prefix(c, d, j + 1) == cursor_value_prefix(c, start, j + 1)
                    + 1);
                let x = cursor_value_prefix(c, start, j + 1);
                let q = count_between(c, j + 1, n as int);
                assert(cursor_value_prefix(c, d, n as int) == (x + 1) * q);
                assert(cursor_value_prefix(c, start, n as int) + 1 == (x + 1) * q);
                assert(cursor_value(c, d) == cursor_value(c, start) + 1);
                assert forall|k: int| 0 <= k < n implies #[trigger] d[k] < c[k].len() by {
                    assert(start[k] < c[k].len());
                }
            }
            return false;
        }
        indexes.set(j, 0);
    }
}

/// Lazily yields every RNA strand whose codons code for a protein, one
/// codon per position, with no cut at start or stop codons.
pub struct RNAReverseTranslations {
    indexes: Vec<usize>,
    possible_translations: Vec<Vec<Codon>>,
    exhausted: bool,
}

impl RNAReverseTranslations {
    /// The candidate codons of each position.
    pub closed spec fn candidates(&self) -> Seq<Seq<Codon>> {
        lists_view(self.possible_translations@)
    }

    /// The cursor: which candidate each position takes next.
    pub closed spec fn cursor(&self) -> Seq<usize> {
        self.indexes@
    }

    /// How many strands have been yielded so far.
    pub closed spec fn produced(&self) -> nat {
        if self.exhausted {
            combination_count(self.candidates())
        } else {
            cursor_value(self.candidates(), self.indexes@)
        }
    }

    pub closed spec fn wf(&self) -> bool {
        &&& self.indexes@.len() == self.possible_translations@.len()
        &&& !self.exhausted ==> valid_cursor(self.candidates(), self.indexes@)
    }

    /// Starts the enumeration for a protein.
    pub fn new(protein: &Strand<AminoAcid>) -> (r: Self)
        ensures
            r.wf(),
            r.candidates() == candidates_of(protein@),
            r.produced() == 0,
    {
        let length = protein.len();
        let mut indexes: Vec<usize> = Vec::new();
        let mut possible_translations: Vec<Vec<Codon>> = Vec::new();
        let mut i: usize = 0;
        while i < length
            invariant
                length == protein@.len(),
                i <= length,
                indexes@.len() == i,
                possible_translations@.len() == i,
                forall|k: int| 0 <= k < i ==> indexes@[k] == 0,
                forall|k: int|
                    0 <= k < i ==> (#[trigger] possible_translations@[k])@ == codons_of(protein@[k]),
            decreases length - i,
        {
            indexes.push(0);
            possible_translations.push(RNA::reverse_translations(&protein.get(i)));
            i = i + 1;
        }
        let r = RNAReverseTranslations { indexes, possible_translations, exhausted: false };
        proof {
            let c = r.candidates();
            assert(c =~= candidates_of(protein@));
            assert forall|k: int| 0 <= k < length implies #[trigger] r.indexes@[k] < c[k].len() by {
                lemma_codons_of_sound(protein@[k]);
            }
            lemma_zero_tail(c, r.indexes@, 0, length as int);
            let z = cursor_value_prefix(c, r.indexes@, 0);
            let q = count_between(c, 0, length as int);
            assert(z == 0);
            assert(z * q == 0) by (nonlinear_arith)
                requires
                    z == 0,
            ;
        }
        r
    }

    /// The strand that the cursor selects.
    fn current(&self) -> (r: Vec<RNA>)
        requires
            self.wf(),
            !self.exhausted,
        ensures
            r@ == combination(self.candidates(), self.indexes@),
    {
        let n = self.indexes.len();
        let mut out: Vec<RNA> = Vec::new();
        let mut k: usize = 0;
        while k < n
            invariant
                self.wf(),
                !self.exhausted,
                n == self.indexes@.len(),
                k <= n,
                out@ == combination_prefix(self.candidates(), self.indexes@, k as int),
            decreases n - k,
        {
            let codon = self.possible_translations[k][self.indexes[k]];
            out.push(codon.0);
            out.push(codon.1);
            out.push(codon.2);
            k = k + 1;
            assert(out@ =~= combination_prefix(self.candidates(), self.indexes@, k as int));
        }
        out
    }

    /// Yields the next strand, or `None` once all of them have been
    /// yielded. The strands come in lexicographic order of the candidate
    /// lists.
    pub fn next(&mut self) -> (r: Option<Strand<RNA>>)
        requires
            old(self).wf(),
        ensures
            final(self).wf(),
            final(self).candidates() == old(self).candidates(),
            final(self).produced() <= combination_count(final(self).candidates()),
            old(self).produced() < combination_count(old(self).candidates()) ==> {
                &&& r is Some
                &&& valid_cursor(old(self).candidates(), old(self).cursor())
                &&& cursor_value(old(self).candidates(), old(self).cursor()) == old(self).produced()
                &&& r->0@ == combination(old(self).candidates(), old(self).cursor())
                &&& final(self).produced() == old(self).produced() + 1
            },
            old(self).produced() >= combination_count(old(self).candidates()) ==> {
                &&& r is None
                &&& final(self).produced() == old(self).produced()
            },
    {
        if self.exhausted {
            return None;
        }
        proof {
            lemma_value_bound(self.candidates(), self.indexes@, self.indexes@.len() as int);
        }
        let value = self.current();
        let carried = advance(&mut self.indexes, &self.possible_translations);
        if carried {
            self.exhausted = true;
        } else {
            proof {
                lemma_value_bound(self.candidates(), self.indexes@, self.indexes@.len() as int);
            }
        }
        Some(Strand::new(value))
    }
}

impl Strand<AminoAcid> {
    /// Every RNA strand whose codons code for this protein, yielded lazily.
    pub fn reverse_translations(&self) -> (r: RNAReverseTranslations)
        ensures
            r.wf(),
            r.candidates() == candidates_of(self@),
            r.produced() == 0,
    {
        RNAReverseTranslations::new(self)
    }
}

impl Strand<AminoAcid> {
    /// How many RNA strands code for this protein, modulo `modulus`.
    pub fn reverse_translation_count(&self, modulus: u64) -> (r: u64)
        requires
            modulus > 0,
        ensures
            r == combination_count(candidates_of(self@)) % (modulus as nat),
    {
        let ghost c = candidates_of(self@);
        let n = self.len();
        let m = modulus as u128;
        let mut acc: u128 = 1 % m;
        let mut i: usize = 0;
        while i < n
            invariant
                c == candidates_of(self@),
                n == self@.len(),
                m == modulus,
                m > 0,
                i <= n,
                acc == count_between(c, 0, i as int) % (m as nat),
            decreases n - i,
        {
            let codons = RNA::reverse_translations(&self.get(i));
            proof {
                lemma_codons_of_sound(self@[i as int]);
                assert(acc < m);
                assert(acc * codons@.len() < m * 7) by (nonlinear_arith)
                    requires
                        acc < m,
                        codons@.len() <= 6,
                ;
                lemma_mul_mod_noop_left(count_between(c, 0, i as int) as int, codons@.len() as int, m as int);
                assert(c[i as int] == codons@);
            }
            acc = (acc * codons.len() as u128) % m;
            i = i + 1;
        }
        proof {
            assert(acc < m);
        }
        acc as u64
    }
}

} // verus!
