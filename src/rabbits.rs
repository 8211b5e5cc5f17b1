//! A rabbit population that grows in cohorts: each step every adult pair
//! (at least two steps old) produces a number of new pairs, and, where a
//! lifespan is set, pairs older than it die.

use vstd::prelude::*;

verus! {

/// A cohort as (age, number of pairs).
pub type CohortModel = (nat, nat);

/// The pairs of all cohorts together.
pub open spec fn pop_total(cs: Seq<CohortModel>) -> nat
    decreases cs.len(),
{
    if cs.len() == 0 {
        0
    } else {
        pop_total(cs.drop_last()) + cs.last().1
    }
}

/// The pairs of the cohorts that breed: those at least two steps old.
pub open spec fn adult_total(cs: Seq<CohortModel>) -> nat
    decreases cs.len(),
{
    if cs.len() == 0 {
        0
    } else {
        adult_total(cs.drop_last()) + if cs.last().0 > 1 {
            cs.last().1
        } else {
            0
        }
    }
}

/// The age after one more step; ages stop counting at 255.
pub open spec fn next_age(age: nat) -> nat {
    if age < 255 {
        age + 1
    } else {
        255
    }
}

/// A cohort dies once its age passes the lifespan.
pub open spec fn is_dead_at(age: nat, max_age: Option<u8>) -> bool {
    max_age is Some && age > max_age->0
}

/// The cohorts one step older, with the dead removed.
pub open spec fn aged_survivors(cs: Seq<CohortModel>, max_age: Option<u8>) -> Seq<CohortModel>
    decreases cs.len(),
{
    if cs.len() == 0 {
        Seq::empty()
    } else {
        let prev = aged_survivors(cs.drop_last(), max_age);
        let a = next_age(cs.last().0);
        if is_dead_at(a, max_age) {
            prev
        } else {
            prev.push((a, cs.last().1))
        }
    }
}

/// One step: everyone ages, the dead leave, and the adults of before the
/// step bring a new cohort of age 1.
pub open spec fn step(cs: Seq<CohortModel>, offspring: nat, max_age: Option<u8>) -> Seq<CohortModel> {
    let adults = adult_total(cs);
    let next = aged_survivors(cs, max_age);
    if adults > 0 {
        next.push((1, adults * offspring))
    } else {
        next
    }
}

/// The cohorts after `k` steps.
pub open spec fn iterate(cs: Seq<CohortModel>, offspring: nat, max_age: Option<u8>, k: nat) -> Seq<
    CohortModel,
>
    decreases k,
{
    if k == 0 {
        cs
    } else {
        step(iterate(cs, offspring, max_age, (k - 1) as nat), offspring, max_age)
    }
}

/// A step whose numbers do not fit in 128 bits.
pub open spec fn overflows(cs: Seq<CohortModel>, offspring: nat) -> bool {
    pop_total(cs) > u128::MAX || adult_total(cs) * offspring > u128::MAX
}

proof fn lemma_adult_le_total(cs: Seq<CohortModel>)
    ensures
        adult_total(cs) <= pop_total(cs),
    decreases cs.len(),
{
    if cs.len() > 0 {
        lemma_adult_le_total(cs.drop_last());
    }
}

/// Pairs of rabbits of the same age.
#[derive(Clone, Copy)]
struct RabbitCohort {
    /// The current age of the cohort.
    age: u8,
    /// The number of pairs in the cohort.
    population: u128,
    /// Once `age` passes this, the cohort dies: it no longer breeds nor
    /// counts.
    max_age: Option<u8>,
}

impl RabbitCohort {
    fn is_dead(&self) -> (r: bool)
        ensures
            r == is_dead_at(self.age as nat, self.max_age),
    {
        match self.max_age {
            Some(max) => self.age > max,
            None => false,
        }
    }
}

spec fn cohorts_model(cs: Seq<RabbitCohort>) -> Seq<CohortModel> {
    Seq::new(cs.len(), |i: int| (cs[i].age as nat, cs[i].population as nat))
}

/// A population that steps forward one generation at a time.
pub struct Rabbits {
    offspring_per_step: u8,
    cohorts: Vec<RabbitCohort>,
    max_age: Option<u8>,
}

impl Rabbits {
    /// The cohorts, as (age, pairs).
    pub closed spec fn cohorts(&self) -> Seq<CohortModel> {
        cohorts_model(self.cohorts@)
    }

    /// New pairs per adult pair per step.
    pub closed spec fn offspring(&self) -> nat {
        self.offspring_per_step as nat
    }

    /// The lifespan, if any.
    pub closed spec fn lifespan(&self) -> Option<u8> {
        self.max_age
    }

    pub closed spec fn wf(&self) -> bool {
        forall|i: int| 0 <= i < self.cohorts@.len() ==> (#[trigger] self.cohorts@[i]).max_age == self.max_age
    }

    /// Each adult pair brings `offspring` new pairs per step; pairs live
    /// forever.
    pub fn new_with_offsping(offspring: u8) -> (r: Self)
        ensures
            r.wf(),
            r.offspring() == offspring,
            r.lifespan() is None,
            r.cohorts() == seq![(1nat, 1nat)],
    {
        Rabbits::new(Some(offspring), None)
    }

    /// Each adult pair brings one new pair per step; pairs die once older
    /// than `max_age`.
    pub fn new_with_max_age(max_age: u8) -> (r: Self)
        ensures
            r.wf(),
            r.offspring() == 1,
            r.lifespan() == Some(max_age),
            r.cohorts() == seq![(1nat, 1nat)],
    {
        Rabbits::new(None, Some(max_age))
    }

    /// Starts from one young pair; `offspring` defaults to one.
    pub fn new(offspring: Option<u8>, max_age: Option<u8>) -> (r: Self)
        ensures
            r.wf(),
            r.offspring() == match offspring {
                Some(o) => o,
                None => 1,
            },
            r.lifespan() == max_age,
            r.cohorts() == seq![(1nat, 1nat)],
    {
        let offspring_per_step = match offspring {
            Some(o) => o,
            None => 1,
        };
        let mut rabbits = Rabbits { offspring_per_step, cohorts: Vec::new(), max_age };
        rabbits.add_cohort(1);
        assert(rabbits.cohorts() =~= seq![(1nat, 1nat)]);
        rabbits
    }

    fn add_cohort(&mut self, population: u128)
        requires
            old(self).wf(),
        ensures
            final(self).wf(),
            final(self).cohorts() == old(self).cohorts().push((1nat, population as nat)),
            final(self).offspring() == old(self).offspring(),
            final(self).lifespan() == old(self).lifespan(),
    {
        self.cohorts.push(RabbitCohort { age: 1, population, max_age: self.max_age });
        assert(self.cohorts() =~= old(self).cohorts().push((1nat, population as nat)));
    }

    /// The pairs of all cohorts, if their number fits in 128 bits.
    fn get_total_population(&self) -> (r: Option<u128>)
        ensures
            r is Some <==> pop_total(self.cohorts()) <= u128::MAX,
            r is Some ==> r->0 == pop_total(self.cohorts()),
    {
        let ghost cs = self.cohorts();
        let mut sum: u128 = 0;
        let mut i: usize = 0;
        while i < self.cohorts.len()
            invariant
                cs == self.cohorts(),
                i <= cs.len(),
                sum == pop_total(cs.subrange(0, i as int)),
            decreases cs.len() - i,
        {
            proof {
                assert(cs.subrange(0, i + 1).drop_last() =~= cs.subrange(0, i as int));
            }
            match sum.checked_add(self.cohorts[i].population) {
                Some(s) => sum = s,
                None => {
                    proof {
                        lemma_pop_total_prefix(cs, i + 1);
                    }
                    return None;
                },
            }
            i = i + 1;
        }
        assert(cs.subrange(0, i as int) =~= cs);
        Some(sum)
    }

    /// The pairs of the breeding cohorts, if their number fits in 128 bits.
    fn get_adult_population(&self) -> (r: Option<u128>)
        ensures
            r is Some <==> adult_total(self.cohorts()) <= u128::MAX,
            r is Some ==> r->0 == adult_total(self.cohorts()),
    {
        let ghost cs = self.cohorts();
        let mut sum: u128 = 0;
        let mut i: usize = 0;
        while i < self.cohorts.len()
            invariant
                cs == self.cohorts(),
                i <= cs.len(),
                sum == adult_total(cs.subrange(0, i as int)),
            decreases cs.len() - i,
        {
            proof {
                assert(cs.subrange(0, i + 1).drop_last() =~= cs.subrange(0, i as int));
            }
            if self.cohorts[i].age > 1 {
                match sum.checked_add(self.cohorts[i].population) {
                    Some(s) => sum = s,
                    None => {
                        proof {
                            lemma_adult_total_prefix(cs, i + 1);
                        }
                        return None;
                    },
                }
            }
            i = i + 1;
        }
        assert(cs.subrange(0, i as int) =~= cs);
        Some(sum)
    }

    /// Steps one generation forward and returns the number of pairs before
    /// the step; `None`, with nothing changed, when the numbers of the step
    /// do not fit in 128 bits.
    pub fn next(&mut self) -> (r: Option<u128>)
        requires
            old(self).wf(),
        ensures
            final(self).wf(),
            final(self).offspring() == old(self).offspring(),
            final(self).lifespan() == old(self).lifespan(),
            r is None <==> overflows(old(self).cohorts(), old(self).offspring()),
            r is Some ==> r->0 == pop_total(old(self).cohorts()) && final(self).cohorts() == step(
                old(self).cohorts(),
                old(self).offspring(),
                old(self).lifespan(),
            ),
            r is None ==> final(self).cohorts() == old(self).cohorts(),
    {
        let ghost cs = self.cohorts();
        let total_pop = match self.get_total_population() {
            Some(t) => t,
            None => {
                return None;
            },
        };
        proof {
            lemma_adult_le_total(cs);
        }
        let adults = match self.get_adult_population() {
            Some(a) => a,
            None => {
                return None;
            },
        };
        let newborn = match adults.checked_mul(self.offspring_per_step as u128) {
            Some(b) => b,
            None => {
                return None;
            },
        };
        let mut survivors: Vec<RabbitCohort> = Vec::new();
        let mut i: usize = 0;
        while i < self.cohorts.len()
            invariant
                cs == self.cohorts(),
                self.wf(),
                i <= cs.len(),
                forall|k: int| 0 <= k < survivors@.len() ==> (#[trigger] survivors@[k]).max_age == self.max_age,
                cohorts_model(survivors@) == aged_survivors(cs.subrange(0, i as int), self.max_age),
            decreases cs.len() - i,
        {
            let c = self.cohorts[i];
            let age: u8 = if c.age < 255 {
                c.age + 1
            } else {
                255
            };
            let older = RabbitCohort { age, population: c.population, max_age: c.max_age };
            proof {
                assert(cs.subrange(0, i + 1).drop_last() =~= cs.subrange(0, i as int));
                assert(self.cohorts@[i as int].max_age == self.max_age);
            }
            if !older.is_dead() {
                let ghost before = survivors@;
                survivors.push(older);
                assert(cohorts_model(survivors@) =~= cohorts_model(before).push(
                    (age as nat, c.population as nat),
                ));
            }
            i = i + 1;
        }
        assert(cs.subrange(0, i as int) =~= cs);
        self.cohorts = survivors;
        if adults > 0 {
            self.add_cohort(newborn);
        }
        Some(total_pop)
    }

    /// Steps `n + 1` generations forward and returns the number of pairs
    /// before the last of them: the population after `n` steps. `None` when
    /// the numbers of one of those steps do not fit in 128 bits; the
    /// population then stays where that step began.
    pub fn nth(&mut self, n: usize) -> (r: Option<u128>)
        requires
            old(self).wf(),
        ensures
            final(self).wf(),
            r is None <==> exists|k: nat|
                k <= n && #[trigger] overflows(
                    iterate(old(self).cohorts(), old(self).offspring(), old(self).lifespan(), k),
                    old(self).offspring(),
                ),
            r is Some ==> r->0 == pop_total(
                iterate(old(self).cohorts(), old(self).offspring(), old(self).lifespan(), n as nat),
            ),
    {
        let ghost start = self.cohorts();
        let ghost off = self.offspring();
        let ghost max = self.lifespan();
        let mut i: usize = 0;
        loop
            invariant
                start == old(self).cohorts(),
                off == old(self).offspring(),
                max == old(self).lifespan(),
                self.wf(),
                self.offspring() == off,
                self.lifespan() == max,
                i <= n,
                self.cohorts() == iterate(start, off, max, i as nat),
                forall|k: nat| k < i ==> !#[trigger] overflows(iterate(start, off, max, k), off),
            decreases n - i,
        {
            let r = self.next();
            match r {
                None => {
                    assert(overflows(iterate(start, off, max, i as nat), off));
                    return None;
                },
                Some(v) => {
                    if i == n {
                        proof {
                            assert forall|k: nat| k <= n implies !#[trigger] overflows(
                                iterate(start, off, max, k),
                                off,
                            ) by {
                                if k < i {
                                } else {
                                    assert(k == i);
                                }
                            }
                        }
                        return Some(v);
                    }
                },
            }
            i = i + 1;
        }
    }
}

proof fn lemma_pop_total_prefix(cs: Seq<CohortModel>, n: int)
    requires
        0 <= n <= cs.len(),
    ensures
        pop_total(cs.subrange(0, n)) <= pop_total(cs),
    decreases cs.len() - n,
{
    if n < cs.len() {
        assert(cs.subrange(0, n + 1).drop_last() =~= cs.subrange(0, n));
        lemma_pop_total_prefix(cs, n + 1);
    } else {
        assert(cs.subrange(0, n) =~= cs);
    }
}

proof fn lemma_adult_total_prefix(cs: Seq<CohortModel>, n: int)
    requires
        0 <= n <= cs.len(),
    ensures
        adult_total(cs.subrange(0, n)) <= adult_total(cs),
    decreases cs.len() - n,
{
    if n < cs.len() {
        assert(cs.subrange(0, n + 1).drop_last() =~= cs.subrange(0, n));
        lemma_adult_total_prefix(cs, n + 1);
    } else {
        assert(cs.subrange(0, n) =~= cs);
    }
}

} // verus!
