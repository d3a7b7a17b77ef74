//! Genes and genomes: the heritable wiring of a network, and its mutation.

use crate::fixed::MAX_WEIGHT;
use crate::neural_net::{
    class_of, is_sink_id, is_source_id, sink_id_at, source_id_at, NeuralNetHelper, NeuronType,
    INPUT_NEURON_COUNT, OUTPUT_NEURON_COUNT,
};
use crate::random::RandomSource;
use vstd::prelude::*;

verus! {

/// The scale of a mutation rate: a rate counts the genes resampled per million.
pub const MUTATION_SCALE: usize = 1_000_000;

/// Number of distinct weights: every thousandth from -4.0 to 4.0.
pub const WEIGHT_CHOICES: usize = 8001;

/// One weighted edge of a network, from the neuron `from` to the neuron `to`.
#[derive(Debug, Clone, Copy, PartialEq, Eq, Structural)]
pub struct Gene {
    pub from: usize,
    pub to: usize,
    pub weight: i32,
}

/// Whether `weight` is in the range a gene may carry.
pub open spec fn is_weight(weight: int) -> bool {
    -(MAX_WEIGHT as int) <= weight <= MAX_WEIGHT as int
}

/// Whether `gene` is a legal edge of a taxonomy of `inner` hidden neurons: it starts at
/// a sensor or a hidden neuron, ends at a hidden neuron or an actuator, and its weight
/// is in range.
pub open spec fn gene_ok(gene: Gene, inner: nat) -> bool {
    &&& is_source_id(inner, gene.from)
    &&& is_sink_id(inner, gene.to)
    &&& is_weight(gene.weight as int)
}

/// Whether every gene of `genes` is a legal edge.
pub open spec fn genes_ok(genes: Seq<Gene>, inner: nat) -> bool {
    forall|i: int| 0 <= i < genes.len() ==> gene_ok(#[trigger] genes[i], inner)
}

/// The weight that the draw `draw` of `0..WEIGHT_CHOICES` stands for.
pub open spec fn weight_at(draw: int) -> int {
    draw - MAX_WEIGHT
}

/// Whether a gene is resampled at `rate` per million when its draw of
/// `0..MUTATION_SCALE` is `draw`.
pub open spec fn mutation_hits(draw: int, rate: int) -> bool {
    draw < rate
}

/// The weight that a draw of `0..WEIGHT_CHOICES` stands for.
pub fn weight_from_draw(draw: usize) -> (weight: i32)
    requires
        draw < WEIGHT_CHOICES,
    ensures
        weight == weight_at(draw as int),
        is_weight(weight as int),
{
    (draw as i32) - MAX_WEIGHT
}

/// A weight drawn from `[-4.0, 4.0]`, with one draw.
pub fn random_weight(rng: &mut RandomSource) -> (weight: i32)
    ensures
        is_weight(weight as int),
        final(rng).drawn() == old(rng).drawn() + 1,
{
    let draw = rng.below(WEIGHT_CHOICES);
    weight_from_draw(draw)
}

/// Whether a gene whose draw of `0..MUTATION_SCALE` is `draw` is resampled at
/// `mutation_rate` per million.
pub fn is_mutation_hit(draw: usize, mutation_rate: u32) -> (hit: bool)
    ensures
        hit == mutation_hits(draw as int, mutation_rate as int),
{
    (draw as u64) < (mutation_rate as u64)
}

impl Gene {
    /// The gene that three draws stand for: the positions of its endpoints among the
    /// legal sources and sinks, and the draw of its weight.
    pub fn from_draws(
        helper: &NeuralNetHelper,
        source_draw: usize,
        sink_draw: usize,
        weight_draw: usize,
    ) -> (gene: Gene)
        requires
            helper.wf(),
            source_draw < INPUT_NEURON_COUNT + helper.inner_count(),
            sink_draw < helper.inner_count() + OUTPUT_NEURON_COUNT,
            weight_draw < WEIGHT_CHOICES,
        ensures
            gene.from == source_id_at(source_draw as int),
            gene.to == sink_id_at(helper.inner_count(), sink_draw as int),
            gene.weight == weight_at(weight_draw as int),
            gene_ok(gene, helper.inner_count()),
    {
        Gene {
            from: helper.from_neuron_at(source_draw),
            to: helper.to_neuron_at(sink_draw),
            weight: weight_from_draw(weight_draw),
        }
    }

    /// A freshly drawn gene: a drawn source, a drawn sink and a drawn weight, with one
    /// draw each.
    pub fn random(helper: &NeuralNetHelper, rng: &mut RandomSource) -> (gene: Gene)
        requires
            helper.wf(),
        ensures
            gene_ok(gene, helper.inner_count()),
            final(rng).drawn() == old(rng).drawn() + 3,
    {
        let from = helper.random_from_neuron(rng);
        let to = helper.random_to_neuron(rng);
        let weight = random_weight(rng);
        Gene { from, to, weight }
    }
}

/// A fixed-length ordered sequence of genes.
#[derive(Debug)]
pub struct Genome {
    pub genes: Vec<Gene>,
}

impl View for Genome {
    type V = Seq<Gene>;

    open spec fn view(&self) -> Seq<Gene> {
        self.genes@
    }
}

/// The genes of an offspring whose parent has the genes `parent`, where
/// `replacements[i]` holds the fresh gene of each position that mutation hit.
pub open spec fn with_replacements(parent: Seq<Gene>, replacements: Seq<Option<Gene>>) -> Seq<
    Gene,
> {
    Seq::new(
        parent.len(),
        |i: int|
            if i < replacements.len() && replacements[i].is_some() {
                replacements[i].unwrap()
            } else {
                parent[i]
            },
    )
}

/// Whether `child` can come from `parent` by mutation: the same number of genes, and at
/// each position the parent's gene or a legal gene.
pub open spec fn is_mutation_of(child: Seq<Gene>, parent: Seq<Gene>, inner: nat) -> bool {
    &&& child.len() == parent.len()
    &&& forall|i: int|
        0 <= i < child.len() ==> #[trigger] child[i] == parent[i] || gene_ok(child[i], inner)
}

impl Genome {
    /// Whether the genome fits a taxonomy of `inner` hidden neurons.
    pub open spec fn wf(&self, inner: nat) -> bool {
        genes_ok(self@, inner)
    }

    /// Number of genes.
    pub fn len(&self) -> (n: usize)
        ensures
            n == self@.len(),
    {
        self.genes.len()
    }

    /// Whether the genome fits the taxonomy `helper`: every gene a legal edge.
    pub fn fits(&self, helper: &NeuralNetHelper) -> (legal: bool)
        requires
            helper.wf(),
        ensures
            legal == self.wf(helper.inner_count()),
    {
        let mut i: usize = 0;
        while i < self.genes.len()
            invariant
                helper.wf(),
                i <= self.genes@.len(),
                forall|k: int|
                    0 <= k < i ==> gene_ok(#[trigger] self.genes@[k], helper.inner_count()),
            decreases self.genes@.len() - i,
        {
            let gene = self.genes[i];
            if !(helper.is_source(gene.from) && helper.is_sink(gene.to) && -MAX_WEIGHT
                <= gene.weight && gene.weight <= MAX_WEIGHT) {
                assert(!gene_ok(self@[i as int], helper.inner_count()));
                return false;
            }
            i += 1;
        }
        true
    }

    /// A genome of `genome_size` freshly drawn genes.
    pub fn random(
        helper: &NeuralNetHelper,
        genome_size: usize,
        rng: &mut RandomSource,
    ) -> (genome: Genome)
        requires
            helper.wf(),
        ensures
            genome@.len() == genome_size,
            genome.wf(helper.inner_count()),
            final(rng).drawn() == old(rng).drawn() + 3 * genome_size,
    {
        let mut genes: Vec<Gene> = Vec::new();
        let mut i: usize = 0;
        while i < genome_size
            invariant
                helper.wf(),
                i <= genome_size,
                genes@.len() == i,
                genes_ok(genes@, helper.inner_count()),
                rng.drawn() == old(rng).drawn() + 3 * i,
            decreases genome_size - i,
        {
            let gene = Gene::random(helper, rng);
            genes.push(gene);
            i += 1;
        }
        Genome { genes }
    }

    /// A copy of the genome, gene for gene.
    pub fn duplicate(&self) -> (copy: Genome)
        ensures
            copy@ == self@,
    {
        let mut genes: Vec<Gene> = Vec::new();
        let mut i: usize = 0;
        while i < self.genes.len()
            invariant
                i <= self.genes@.len(),
                genes@ == self.genes@.take(i as int),
            decreases self.genes@.len() - i,
        {
            genes.push(self.genes[i]);
            assert(genes@ =~= self.genes@.take(i + 1));
            i += 1;
        }
        assert(genes@ =~= self.genes@);
        Genome { genes }
    }

    /// The offspring genome in which each position that `replacements` fills carries
    /// the fresh gene, and every other position the parent's gene.
    pub fn replaced(&self, replacements: &Vec<Option<Gene>>) -> (child: Genome)
        ensures
            child@ == with_replacements(self@, replacements@),
            child@.len() == self@.len(),
    {
        let mut genes: Vec<Gene> = Vec::new();
        let mut i: usize = 0;
        while i < self.genes.len()
            invariant
                i <= self.genes@.len(),
                genes@ == with_replacements(self@, replacements@).take(i as int),
            decreases self.genes@.len() - i,
        {
            let gene = if i < replacements.len() {
                match replacements[i] {
                    Some(fresh) => fresh,
                    None => self.genes[i],
                }
            } else {
                self.genes[i]
            };
            genes.push(gene);
            assert(genes@ =~= with_replacements(self@, replacements@).take(i + 1));
            i += 1;
        }
        assert(genes@ =~= with_replacements(self@, replacements@));
        Genome { genes }
    }

    /// The genome of an offspring: a copy of this genome in which each gene, on its own
    /// and at `mutation_rate` per million, has been replaced by a freshly drawn gene.
    /// One draw decides for each gene, and three more make the fresh gene.
    pub fn mutate(
        &self,
        helper: &NeuralNetHelper,
        mutation_rate: u32,
        rng: &mut RandomSource,
    ) -> (child: Genome)
        requires
            helper.wf(),
        ensures
            is_mutation_of(child@, self@, helper.inner_count()),
            mutation_rate == 0 ==> child@ == self@,
            mutation_rate >= MUTATION_SCALE ==> genes_ok(child@, helper.inner_count()),
            old(rng).drawn() + self@.len() <= final(rng).drawn() <= old(rng).drawn() + 4
                * self@.len(),
            mutation_rate == 0 ==> final(rng).drawn() == old(rng).drawn() + self@.len(),
            mutation_rate >= MUTATION_SCALE ==> final(rng).drawn() == old(rng).drawn() + 4
                * self@.len(),
    {
        let mut replacements: Vec<Option<Gene>> = Vec::new();
        let mut i: usize = 0;
        while i < self.genes.len()
            invariant
                helper.wf(),
                i <= self.genes@.len(),
                replacements@.len() == i,
                forall|k: int|
                    0 <= k < i ==> (#[trigger] replacements@[k]).is_some() ==> gene_ok(
                        replacements@[k].unwrap(),
                        helper.inner_count(),
                    ),
                mutation_rate == 0 ==> forall|k: int|
                    0 <= k < i ==> (#[trigger] replacements@[k]).is_none(),
                mutation_rate >= MUTATION_SCALE ==> forall|k: int|
                    0 <= k < i ==> (#[trigger] replacements@[k]).is_some(),
                old(rng).drawn() + i <= rng.drawn() <= old(rng).drawn() + 4 * i,
                mutation_rate == 0 ==> rng.drawn() == old(rng).drawn() + i,
                mutation_rate >= MUTATION_SCALE ==> rng.drawn() == old(rng).drawn() + 4 * i,
            decreases self.genes@.len() - i,
        {
            let draw = rng.below(MUTATION_SCALE);
            if is_mutation_hit(draw, mutation_rate) {
                let fresh = Gene::random(helper, rng);
                replacements.push(Some(fresh));
            } else {
                replacements.push(None);
            }
            i += 1;
        }
        let child = self.replaced(&replacements);
        proof {
            lemma_replacements_mutate(self@, replacements@, helper.inner_count());
            if mutation_rate == 0 {
                assert(child@ =~= self@);
            }
            if mutation_rate >= MUTATION_SCALE {
                assert forall|k: int| 0 <= k < child@.len() implies gene_ok(
                    #[trigger] child@[k],
                    helper.inner_count(),
                ) by {
                    assert(replacements@[k].is_some());
                }
            }
        }
        child
    }
}

/// A legal gene starts at a sensor or a hidden neuron and ends at a hidden neuron or an
/// actuator.
pub proof fn lemma_gene_classes(gene: Gene, inner: nat)
    requires
        gene_ok(gene, inner),
    ensures
        class_of(inner, gene.from) == NeuronType::InputNeuron || class_of(inner, gene.from)
            == NeuronType::InnerNeuron,
        class_of(inner, gene.to) == NeuronType::InnerNeuron || class_of(inner, gene.to)
            == NeuronType::OutputNeuron,
{
}

/// Replacing genes by legal genes is a mutation: the gene count stays, and each
/// position carries the parent's gene or a legal one.
pub proof fn lemma_replacements_mutate(
    parent: Seq<Gene>,
    replacements: Seq<Option<Gene>>,
    inner: nat,
)
    requires
        forall|k: int|
            0 <= k < replacements.len() ==> (#[trigger] replacements[k]).is_some() ==> gene_ok(
                replacements[k].unwrap(),
                inner,
            ),
    ensures
        is_mutation_of(with_replacements(parent, replacements), parent, inner),
{
}

/// Mutation never changes the gene count, and a legal genome stays legal under it.
pub proof fn lemma_mutation_keeps_genome(child: Seq<Gene>, parent: Seq<Gene>, inner: nat)
    requires
        is_mutation_of(child, parent, inner),
    ensures
        child.len() == parent.len(),
        genes_ok(parent, inner) ==> genes_ok(child, inner),
{
}

} // verus!
