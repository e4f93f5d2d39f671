//! The gene pool: a population of genotypes with their fitness, sampled by
//! fitness to spawn new agents, reinforced when a genotype comes back, and
//! culled from its oldest end when it grows.
//!
//! Fitness is a whole number of points (seconds survived, kills, ...).
use vstd::prelude::*;

use crate::chance::{chance, total, weighted_pick};
use crate::genetics::PER_MILLE;
use crate::network::{is_dumb, Brain};

verus! {

/// Fitness of the seed genotype. It stays the main source of breeding until
/// the population diversifies.
pub const EDEN_FITNESS: u32 = 800;

/// Added to every fitness when sampling, so that no genotype is left out.
pub const FITNESS_FLOOR: u32 = 40;

/// Fitness of the blank genotypes that refill a thinned population.
pub const BLANK_FITNESS: u32 = 40;

/// Population size the pool is tuned for, unless told otherwise.
pub const IDEAL_POPULATION: u32 = 20;

/// The largest ideal population size a pool accepts.
pub const MAX_IDEAL_POPULATION: u32 = 1_000_000;

/// Hidden neurons of the seed and blank genotypes.
pub const SEED_HIDDEN_NEURONS: u8 = 3;

/// Breeding genotypes with their fitness and generation id, oldest first.
#[derive(Debug)]
pub struct GenePool {
    genotypes: Vec<Brain>,
    fitness: Vec<u32>,
    ids: Vec<u64>,
    preserved_total: u64,
    ideal_population_size: u32,
    /// How often, in parts per thousand, a spawn is a new blank genotype.
    blank_frequency: u32,
}

/// `gs[i]` is the first genotype with the genes of `g`.
pub open spec fn is_first_match(gs: Seq<Brain>, g: Brain, i: int) -> bool {
    &&& 0 <= i < gs.len()
    &&& gs[i]@ == g@
    &&& forall|j: int| 0 <= j < i ==> #[trigger] gs[j]@ != g@
}

pub open spec fn has_match(gs: Seq<Brain>, g: Brain) -> bool {
    exists|i: int| 0 <= i < gs.len() && #[trigger] gs[i]@ == g@
}

proof fn lemma_first_match_unique(gs: Seq<Brain>, g: Brain, i: int, j: int)
    requires
        is_first_match(gs, g, i),
        is_first_match(gs, g, j),
    ensures
        i == j,
{
    if i < j {
        assert(gs[i]@ != g@);
    } else if j < i {
        assert(gs[j]@ == g@);
    }
}

/// The population after recording `g` with fitness `f`: a genotype already
/// present has its first copy's fitness raised by `f`, saturating; a new one
/// is appended with the next generation id.
pub open spec fn recorded_fitness(gs: Seq<Brain>, fs: Seq<u32>, g: Brain, f: u32) -> Seq<u32> {
    if has_match(gs, g) {
        let i = choose|i: int| is_first_match(gs, g, i);
        fs.update(i, fs[i].saturating_add(f))
    } else {
        fs.push(f)
    }
}

pub open spec fn recorded_genotypes(gs: Seq<Brain>, g: Brain) -> Seq<Brain> {
    if has_match(gs, g) {
        gs
    } else {
        gs.push(g)
    }
}

pub open spec fn recorded_ids(gs: Seq<Brain>, ids: Seq<u64>, g: Brain, next_id: u64) -> Seq<u64> {
    if has_match(gs, g) {
        ids
    } else {
        ids.push(next_id)
    }
}

/// Culling fires once the population passes two thirds of the ideal size.
pub open spec fn culling_fires(n: nat, ideal: nat) -> bool {
    n > ideal * 2 / 3
}

/// How many of `n` entries retire when the draw asked for `retire`: never
/// more than there are, and at least enough to bring the population down to
/// twice the ideal size.
pub open spec fn retired(n: nat, retire: nat, ideal: nat) -> nat {
    let k = if retire <= n {
        retire
    } else {
        n
    };
    if n - k > 2 * ideal {
        (n - 2 * ideal) as nat
    } else {
        k
    }
}

/// The size below which a culled population is refilled with blanks.
pub open spec fn population_floor(ideal: nat) -> nat {
    ideal / 4
}

/// `after` starts with `before` less its first `k` items.
pub open spec fn keeps_tail<T>(before: Seq<T>, after: Seq<T>, k: nat) -> bool {
    &&& k <= before.len()
    &&& after.len() >= before.len() - k
    &&& after.subrange(0, before.len() - k) == before.subrange(k as int, before.len() as int)
}

/// The bound on one sampling weight.
pub open spec fn max_sampling_weight() -> int {
    u32::MAX + FITNESS_FLOOR
}

/// Preserving a genotype whose genes are already in the pool adds its
/// fitness to the first such entry, exactly when the sum fits, and adds no
/// entry.
pub proof fn lemma_reinforcement(gs: Seq<Brain>, fs: Seq<u32>, g: Brain, f: u32, i: int)
    requires
        fs.len() == gs.len(),
        is_first_match(gs, g, i),
        fs[i] + f <= u32::MAX,
    ensures
        recorded_genotypes(gs, g) == gs,
        recorded_fitness(gs, fs, g, f) == fs.update(i, (fs[i] + f) as u32),
        recorded_fitness(gs, fs, g, f)[i] == fs[i] + f,
        recorded_fitness(gs, fs, g, f).len() == fs.len(),
{
    assert(has_match(gs, g)) by {
        assert(gs[i]@ == g@);
    }
    let c = choose|c: int| is_first_match(gs, g, c);
    lemma_first_match_unique(gs, g, i, c);
}

/// The number of `n` entries that retire at a cull, each independently with
/// chance `1 / ideal`: a binomial draw.
fn retirement_draw(n: usize, ideal: u32) -> (r: u64)
    requires
        1 <= ideal,
    ensures
        r <= n,
        ideal == 1 ==> r == n,
{
    let mut count: u64 = 0;
    let mut i: usize = 0;
    while i < n
        invariant
            1 <= ideal,
            i <= n,
            count <= i,
            ideal == 1 ==> count == i,
        decreases n - i,
    {
        if chance(1, ideal) {
            count = count + 1;
        }
        i = i + 1;
    }
    count
}

/// `after` is the population `gs`, `fs`, `ids` culled with a draw of
/// `retire`: the retired prefix is gone, the rest keeps its order, and a
/// population left under the floor is refilled with blanks up to it.
pub open spec fn cull_result(
    gs: Seq<Brain>,
    fs: Seq<u32>,
    ids: Seq<u64>,
    ideal: nat,
    retire: nat,
    after: &GenePool,
) -> bool {
    &&& after.genotypes().len() == cull_size(gs.len(), retire, ideal)
    &&& keeps_tail(gs, after.genotypes(), retired(gs.len(), retire, ideal))
    &&& keeps_tail(fs, after.fitness(), retired(gs.len(), retire, ideal))
    &&& keeps_tail(ids, after.ids(), retired(gs.len(), retire, ideal))
    &&& refilled_with_blanks(after, (gs.len() - retired(gs.len(), retire, ideal)) as nat)
}

/// `after` is `before` culled with a draw of `retire`.
pub open spec fn culled_from(before: &GenePool, after: &GenePool, retire: nat) -> bool {
    cull_result(before.genotypes(), before.fitness(), before.ids(), before.ideal(), retire, after)
}

/// The population size after culling `n` entries with a draw of `retire`:
/// what is kept, or the floor if fewer are kept.
pub open spec fn cull_size(n: nat, retire: nat, ideal: nat) -> nat {
    if n - retired(n, retire, ideal) < population_floor(ideal) {
        population_floor(ideal)
    } else {
        (n - retired(n, retire, ideal)) as nat
    }
}

/// Every entry of `pool` from `start` on is a blank genotype of fitness
/// `BLANK_FITNESS` and id 0.
pub open spec fn refilled_with_blanks(pool: &GenePool, start: nat) -> bool {
    forall|j: int|
        start <= j < pool.genotypes().len() ==> is_dumb(
            #[trigger] pool.genotypes()[j],
            SEED_HIDDEN_NEURONS as nat,
        ) && pool.fitness()[j] == BLANK_FITNESS && pool.ids()[j] == 0
}

/// Whatever the draw, a cull leaves at least a quarter of the ideal size and
/// at most twice the ideal size, when the ideal size is at least one.
pub proof fn lemma_cull_bounds(before: &GenePool, after: &GenePool, retire: nat)
    requires
        before.ideal() >= 1,
        culled_from(before, after, retire),
    ensures
        population_floor(before.ideal()) <= after.genotypes().len() <= 2 * before.ideal(),
{
}

proof fn lemma_total_push(s: Seq<u64>, x: u64)
    ensures
        total(s.push(x)) == total(s) + x,
{
    assert(s.push(x).drop_last() =~= s);
}

impl GenePool {
    pub closed spec fn genotypes(&self) -> Seq<Brain> {
        self.genotypes@
    }

    pub closed spec fn fitness(&self) -> Seq<u32> {
        self.fitness@
    }

    pub closed spec fn ids(&self) -> Seq<u64> {
        self.ids@
    }

    /// The generation id the next new genotype gets.
    pub closed spec fn next_id(&self) -> u64 {
        self.preserved_total
    }

    pub closed spec fn ideal(&self) -> nat {
        self.ideal_population_size as nat
    }

    pub closed spec fn blanks(&self) -> nat {
        self.blank_frequency as nat
    }

    /// Consistent, with at most `2 * ideal + slack` entries.
    pub closed spec fn inv(&self, slack: nat) -> bool {
        &&& self.fitness@.len() == self.genotypes@.len()
        &&& self.ids@.len() == self.genotypes@.len()
        &&& 1 <= self.ideal_population_size <= MAX_IDEAL_POPULATION
        &&& self.genotypes@.len() <= 2 * self.ideal_population_size + slack
        &&& self.blank_frequency <= PER_MILLE
        &&& self.preserved_total >= 1
        &&& forall|i: int| 0 <= i < self.ids@.len() ==> #[trigger] self.ids@[i] < self.preserved_total
    }

    pub open spec fn wf(&self) -> bool {
        self.inv(0)
    }

    /// A pool of one dumb seed genotype at fitness `EDEN_FITNESS`, with the
    /// given ideal size and blank frequency (parts per thousand).
    pub fn with_settings(ideal_population_size: u32, blank_frequency: u32) -> (r: GenePool)
        requires
            1 <= ideal_population_size <= MAX_IDEAL_POPULATION,
            blank_frequency <= PER_MILLE,
        ensures
            r.wf(),
            r.genotypes().len() == 1,
            is_dumb(r.genotypes()[0], SEED_HIDDEN_NEURONS as nat),
            r.fitness() == seq![EDEN_FITNESS],
            r.ids() == seq![0u64],
            r.next_id() == 1,
            r.ideal() == ideal_population_size,
            r.blanks() == blank_frequency,
    {
        // Let it be the main source of breeding
        // until reaching ideal population's fraction.
        let mut genotypes: Vec<Brain> = Vec::new();
        genotypes.push(Brain::new_dumb(SEED_HIDDEN_NEURONS));
        let mut fitness: Vec<u32> = Vec::new();
        fitness.push(EDEN_FITNESS);
        let mut ids: Vec<u64> = Vec::new();
        ids.push(0);
        let r = GenePool {
            genotypes,
            fitness,
            ids,
            preserved_total: 1,
            ideal_population_size,
            blank_frequency,
        };
        proof {
            assert(r.fitness@ =~= seq![EDEN_FITNESS]);
            assert(r.ids@ =~= seq![0u64]);
        }
        r
    }

    /// The seed pool: ideal size `IDEAL_POPULATION`, no blanks.
    pub fn new_eden() -> (r: GenePool)
        ensures
            r.wf(),
            r.genotypes().len() == 1,
            is_dumb(r.genotypes()[0], SEED_HIDDEN_NEURONS as nat),
            r.fitness() == seq![EDEN_FITNESS],
            r.ids() == seq![0u64],
            r.next_id() == 1,
            r.ideal() == IDEAL_POPULATION,
            r.blanks() == 0,
    {
        GenePool::with_settings(IDEAL_POPULATION, 0)
    }

    /// A pool of the given genotypes with their fitness, oldest first, with
    /// generation ids 1, 2, ... in that order.
    pub fn from_population(
        genotypes: Vec<Brain>,
        fitness: Vec<u32>,
        ideal_population_size: u32,
        blank_frequency: u32,
    ) -> (r: GenePool)
        requires
            genotypes@.len() == fitness@.len(),
            1 <= ideal_population_size <= MAX_IDEAL_POPULATION,
            genotypes@.len() <= 2 * ideal_population_size,
            blank_frequency <= PER_MILLE,
        ensures
            r.wf(),
            r.genotypes() == genotypes@,
            r.fitness() == fitness@,
            r.ids() == Seq::new(genotypes@.len(), |i: int| (i + 1) as u64),
            r.next_id() == genotypes@.len() + 1,
            r.ideal() == ideal_population_size,
            r.blanks() == blank_frequency,
    {
        let n = genotypes.len();
        let mut ids: Vec<u64> = Vec::new();
        let mut i: usize = 0;
        while i < n
            invariant
                n <= 2 * MAX_IDEAL_POPULATION,
                i <= n,
                ids@ == Seq::new(i as nat, |j: int| (j + 1) as u64),
            decreases n - i,
        {
            ids.push(i as u64 + 1);
            i = i + 1;
            proof {
                assert(ids@ =~= Seq::new(i as nat, |j: int| (j + 1) as u64));
            }
        }
        GenePool {
            genotypes,
            fitness,
            ids,
            preserved_total: n as u64 + 1,
            ideal_population_size,
            blank_frequency,
        }
    }

    pub fn genotype(&self, index: usize) -> (r: &Brain)
        requires
            self.wf(),
            index < self.genotypes().len(),
        ensures
            *r == self.genotypes()[index as int],
    {
        &self.genotypes[index]
    }

    pub fn fitness_of(&self, index: usize) -> (r: u32)
        requires
            self.wf(),
            index < self.genotypes().len(),
        ensures
            r == self.fitness()[index as int],
    {
        self.fitness[index]
    }

    pub fn id_of(&self, index: usize) -> (r: u64)
        requires
            self.wf(),
            index < self.genotypes().len(),
        ensures
            r == self.ids()[index as int],
    {
        self.ids[index]
    }

    pub fn ideal_population_size(&self) -> (r: u32)
        ensures
            r == self.ideal(),
    {
        self.ideal_population_size
    }

    pub fn blank_frequency(&self) -> (r: u32)
        ensures
            r == self.blanks(),
    {
        self.blank_frequency
    }

    pub fn len(&self) -> (r: usize)
        requires
            self.wf(),
        ensures
            r == self.genotypes().len(),
    {
        self.genotypes.len()
    }

    /// The sampling weight of every entry: its fitness plus the floor.
    fn sampling_weights(&self) -> (r: Vec<u64>)
        requires
            self.wf(),
        ensures
            r@.len() == self.genotypes().len(),
            forall|i: int| 0 <= i < r@.len() ==> #[trigger] r@[i] == self.fitness()[i] + FITNESS_FLOOR,
            total(r@) <= u64::MAX,
            r@.len() > 0 ==> total(r@) > 0,
    {
        let mut r: Vec<u64> = Vec::new();
        let mut sum: u64 = 0;
        let mut i: usize = 0;
        while i < self.fitness.len()
            invariant
                self.wf(),
                i <= self.fitness@.len(),
                r@.len() == i,
                forall|j: int| 0 <= j < i ==> #[trigger] r@[j] == self.fitness@[j] + FITNESS_FLOOR,
                total(r@) == sum as int,
                sum as int <= i * max_sampling_weight(),
                i > 0 ==> sum > 0,
            decreases self.fitness@.len() - i,
        {
            let w: u64 = self.fitness[i] as u64 + FITNESS_FLOOR as u64;
            proof {
                lemma_total_push(r@, w);
                assert((i + 1) * max_sampling_weight() == i * max_sampling_weight()
                    + max_sampling_weight()) by (nonlinear_arith);
                assert(i * max_sampling_weight() <= 2 * MAX_IDEAL_POPULATION * max_sampling_weight())
                    by (nonlinear_arith)
                    requires
                        i <= 2 * MAX_IDEAL_POPULATION,
                        max_sampling_weight() > 0,
                ;
            }
            r.push(w);
            sum = sum + w;
            i = i + 1;
        }
        r
    }

    /// An entry drawn with probability proportional to its fitness plus the
    /// floor. The pool is left as it is.
    pub fn draw_index(&self) -> (r: usize)
        requires
            self.wf(),
            self.genotypes().len() > 0,
        ensures
            r < self.genotypes().len(),
    {
        let weights = self.sampling_weights();
        weighted_pick(&weights)
    }

    /// Hands out a copy of the genotype at `index` and halves its fitness,
    /// so that one genotype does not take over all the spawns.
    pub fn spawn_from(&mut self, index: usize) -> (r: Brain)
        requires
            old(self).wf(),
            index < old(self).genotypes().len(),
        ensures
            final(self).wf(),
            r@ == old(self).genotypes()[index as int]@,
            final(self).genotypes() == old(self).genotypes(),
            final(self).fitness() == old(self).fitness().update(
                index as int,
                old(self).fitness()[index as int] / 2,
            ),
            final(self).ids() == old(self).ids(),
            final(self).next_id() == old(self).next_id(),
            final(self).ideal() == old(self).ideal(),
            final(self).blanks() == old(self).blanks(),
    {
        let halved = self.fitness[index] / 2;
        self.fitness.set(index, halved);
        self.genotypes[index].clone()
    }

    /// A genotype for a new agent: `blank` with the blank frequency, or
    /// always when the pool is empty; else a copy of an entry drawn with
    /// probability proportional to its fitness plus the floor, whose fitness
    /// is then halved.
    pub fn spawn(&mut self, blank: Brain) -> (r: Brain)
        requires
            old(self).wf(),
        ensures
            final(self).wf(),
            final(self).genotypes() == old(self).genotypes(),
            final(self).ids() == old(self).ids(),
            final(self).next_id() == old(self).next_id(),
            final(self).ideal() == old(self).ideal(),
            final(self).blanks() == old(self).blanks(),
            old(self).genotypes().len() == 0 ==> r@ == blank@ && final(self).fitness() == old(
                self,
            ).fitness(),
            (r@ == blank@ && final(self).fitness() == old(self).fitness()) || exists|i: int|
                0 <= i < old(self).genotypes().len() && r@ == old(self).genotypes()[i]@
                    && final(self).fitness() == old(self).fitness().update(
                    i,
                    old(self).fitness()[i] / 2,
                ),
            old(self).blanks() == PER_MILLE ==> r@ == blank@ && final(self).fitness() == old(
                self,
            ).fitness(),
            old(self).blanks() == 0 && old(self).genotypes().len() > 0 ==> exists|i: int|
                0 <= i < old(self).genotypes().len() && r@ == old(self).genotypes()[i]@
                    && final(self).fitness() == old(self).fitness().update(
                    i,
                    old(self).fitness()[i] / 2,
                ),
    {
        if chance(self.blank_frequency, PER_MILLE) || self.genotypes.len() == 0 {
            return blank;
        }
        let index = self.draw_index();
        self.spawn_from(index)
    }

    /// How many mutation passes a spawned genotype gets: more while the
    /// population is small, `ceil(20 / (len + 0.1))`.
    pub fn get_mut_rate(&self) -> (r: u8)
        requires
            self.wf(),
        ensures
            r == (200 + 10 * self.genotypes().len()) / (10 * self.genotypes().len() + 1),
    {
        let n: u64 = self.genotypes.len() as u64;
        let r: u64 = (200 + 10 * n) / (10 * n + 1);
        proof {
            assert((200 + 10 * n) / (10 * n + 1) <= 200) by (nonlinear_arith);
        }
        r as u8
    }

    /// The first entry with the genes of `g`.
    pub fn position_of(&self, g: &Brain) -> (r: Option<usize>)
        requires
            self.wf(),
        ensures
            r matches Some(i) ==> is_first_match(self.genotypes(), *g, i as int),
            r is None <==> !has_match(self.genotypes(), *g),
    {
        let mut i: usize = 0;
        while i < self.genotypes.len()
            invariant
                i <= self.genotypes@.len(),
                forall|j: int| 0 <= j < i ==> #[trigger] self.genotypes@[j]@ != g@,
            decreases self.genotypes@.len() - i,
        {
            if self.genotypes[i].same_as(g) {
                return Some(i);
            }
            i = i + 1;
        }
        None
    }

    /// Records a genotype whose agent has ended with `fitness`: a genotype
    /// already present has the fitness of its first copy raised by it
    /// (saturating), a new one is appended with the next generation id.
    pub fn record(&mut self, genotype: Brain, fitness: u32)
        requires
            old(self).wf(),
            old(self).next_id() < u64::MAX,
        ensures
            final(self).inv(1),
            final(self).genotypes() == recorded_genotypes(old(self).genotypes(), genotype),
            final(self).fitness() == recorded_fitness(
                old(self).genotypes(),
                old(self).fitness(),
                genotype,
                fitness,
            ),
            final(self).ids() == recorded_ids(
                old(self).genotypes(),
                old(self).ids(),
                genotype,
                old(self).next_id(),
            ),
            final(self).next_id() == if has_match(old(self).genotypes(), genotype) {
                old(self).next_id()
            } else {
                (old(self).next_id() + 1) as u64
            },
            final(self).ideal() == old(self).ideal(),
            final(self).blanks() == old(self).blanks(),
    {
        match self.position_of(&genotype) {
            Some(i) => {
                proof {
                    let c = choose|c: int| is_first_match(self.genotypes@, genotype, c);
                    lemma_first_match_unique(self.genotypes@, genotype, i as int, c);
                }
                let raised = self.fitness[i].saturating_add(fitness);
                self.fitness.set(i, raised);
            },
            None => {
                self.genotypes.push(genotype);
                self.fitness.push(fitness);
                self.ids.push(self.preserved_total);
                self.preserved_total = self.preserved_total + 1;
            },
        }
    }

    /// Retires the oldest entries: `retire` of them, or all if there are
    /// fewer, or more if that is what brings the population down to twice the
    /// ideal size. A population left under a quarter of the ideal size is
    /// refilled with blank genotypes of fitness `BLANK_FITNESS` and id 0.
    pub fn cull(&mut self, retire: u64)
        requires
            old(self).inv(1),
        ensures
            final(self).wf(),
            culled_from(old(self), final(self), retire as nat),
            final(self).next_id() == old(self).next_id(),
            final(self).ideal() == old(self).ideal(),
            final(self).blanks() == old(self).blanks(),
    {
        let ghost before = *self;
        let n = self.genotypes.len();
        let ideal = self.ideal_population_size as usize;
        let mut k: usize = if (retire as u128) <= (n as u128) {
            retire as usize
        } else {
            n
        };
        if n - k > 2 * ideal {
            k = n - 2 * ideal;
        }
        let ghost old_g = self.genotypes@;
        let ghost old_f = self.fitness@;
        let ghost old_i = self.ids@;
        self.genotypes = self.genotypes.split_off(k);
        self.fitness = self.fitness.split_off(k);
        self.ids = self.ids.split_off(k);
        let floor = ideal / 4;
        let kept = n - k;
        proof {
            assert forall|j: int| 0 <= j < self.ids@.len() implies #[trigger] self.ids@[j]
                < self.preserved_total by {
                assert(self.ids@[j] == old_i[j + k]);
            }
        }
        while self.genotypes.len() < floor
            invariant
                self.preserved_total >= 1,
                forall|j: int| 0 <= j < self.ids@.len() ==> #[trigger] self.ids@[j] < self.preserved_total,
                self.ideal_population_size == old(self).ideal_population_size,
                self.blank_frequency == old(self).blank_frequency,
                self.preserved_total == old(self).preserved_total,
                ideal == self.ideal_population_size,
                1 <= ideal <= MAX_IDEAL_POPULATION,
                self.blank_frequency <= PER_MILLE,
                floor == ideal / 4,
                k <= n,
                kept == n - k,
                kept <= 2 * ideal,
                old_g.len() == n,
                old_f.len() == n,
                old_i.len() == n,
                self.genotypes@.len() == self.fitness@.len(),
                self.genotypes@.len() == self.ids@.len(),
                kept <= self.genotypes@.len(),
                self.genotypes@.len() <= if kept < floor {
                    floor
                } else {
                    kept
                },
                self.genotypes@.subrange(0, kept as int) == old_g.subrange(k as int, n as int),
                self.fitness@.subrange(0, kept as int) == old_f.subrange(k as int, n as int),
                self.ids@.subrange(0, kept as int) == old_i.subrange(k as int, n as int),
                forall|j: int|
                    kept <= j < self.genotypes@.len() ==> is_dumb(
                        #[trigger] self.genotypes@[j],
                        SEED_HIDDEN_NEURONS as nat,
                    ) && self.fitness@[j] == BLANK_FITNESS && self.ids@[j] == 0,
            decreases floor - self.genotypes@.len(),
        {
            let ghost g0 = self.genotypes@;
            let ghost f0 = self.fitness@;
            let ghost i0 = self.ids@;
            self.genotypes.push(Brain::new_dumb(SEED_HIDDEN_NEURONS));
            self.fitness.push(BLANK_FITNESS);
            self.ids.push(0);
            proof {
                assert(self.genotypes@.subrange(0, kept as int) =~= g0.subrange(0, kept as int));
                assert(self.fitness@.subrange(0, kept as int) =~= f0.subrange(0, kept as int));
                assert(self.ids@.subrange(0, kept as int) =~= i0.subrange(0, kept as int));
            }
        }
        proof {
            assert(retired(n as nat, retire as nat, before.ideal()) == k);
            assert(keeps_tail(before.genotypes(), self.genotypes(), k as nat));
            assert(keeps_tail(before.fitness(), self.fitness(), k as nat));
            assert(keeps_tail(before.ids(), self.ids(), k as nat));
            assert forall|j: int| kept <= j < self.genotypes().len() implies is_dumb(
                #[trigger] self.genotypes()[j],
                SEED_HIDDEN_NEURONS as nat,
            ) && self.fitness()[j] == BLANK_FITNESS && self.ids()[j] == 0 by {
                assert(is_dumb(self.genotypes@[j], SEED_HIDDEN_NEURONS as nat));
            }
            assert(refilled_with_blanks(self, kept as nat));
        }
    }
}

impl GenePool {
    /// Records a genotype whose agent has ended with `fitness` (see
    /// `record`); then, once the population passes two thirds of the ideal
    /// size, culls it (see `cull`) with a count of retirements drawn from the
    /// binomial distribution of the population size and `1 / ideal`.
    pub fn preserve(&mut self, genotype: Brain, fitness: u32)
        requires
            old(self).wf(),
            old(self).next_id() < u64::MAX,
        ensures
            final(self).wf(),
            final(self).ideal() == old(self).ideal(),
            final(self).blanks() == old(self).blanks(),
            final(self).genotypes().len() <= 2 * final(self).ideal(),
            final(self).next_id() == if has_match(old(self).genotypes(), genotype) {
                old(self).next_id()
            } else {
                (old(self).next_id() + 1) as u64
            },
            ({
                let gs = recorded_genotypes(old(self).genotypes(), genotype);
                let fs = recorded_fitness(old(self).genotypes(), old(self).fitness(), genotype, fitness);
                let ids = recorded_ids(old(self).genotypes(), old(self).ids(), genotype, old(self).next_id());
                &&& !culling_fires(gs.len(), old(self).ideal()) ==> {
                    &&& final(self).genotypes() == gs
                    &&& final(self).fitness() == fs
                    &&& final(self).ids() == ids
                }
                &&& culling_fires(gs.len(), old(self).ideal()) ==> exists|retire: nat|
                    #![trigger cull_result(gs, fs, ids, old(self).ideal(), retire, final(self))]
                    retire <= gs.len() && cull_result(
                        gs,
                        fs,
                        ids,
                        old(self).ideal(),
                        retire,
                        final(self),
                    )
            }),
    {
        self.record(genotype, fitness);
        let n = self.genotypes.len();
        let ideal = self.ideal_population_size;
        if n > (ideal as usize) * 2 / 3 {
            let retire = retirement_draw(n, ideal);
            let ghost before = *self;
            self.cull(retire);
            proof {
                assert(cull_result(
                    before.genotypes(),
                    before.fitness(),
                    before.ids(),
                    before.ideal(),
                    retire as nat,
                    self,
                ));
            }
        }
    }
}

} // verus!
