//! Evaluation of a network: one synchronous pass that turns a genome, the sensor
//! readings of a tick and the hidden neurons' values of the tick before into the
//! actuators' activations and the agent's decision.
//!
//! Every gene adds `weight * value(source)` to the accumulator of its sink. The value
//! of a sensor is its reading of this tick; the value of a hidden neuron is the one it
//! reached on the evaluation before, so information that passes through a hidden
//! neuron arrives one tick later and cycles among hidden neurons need no iteration.
//! The accumulator of a hidden neuron starts from that neuron's earlier value, the
//! accumulator of an actuator from zero.

use crate::fixed::{activate, activation, in_signed_unit, weighted, UNIT};
use crate::genome::{gene_ok, genes_ok, Gene, Genome};
use crate::neural_net::{
    is_input_id, is_output_id, output_base, NeuralNet, OutputNeuronType,
    INNER_ID_BASE, INPUT_ID_BASE, INPUT_NEURON_COUNT, OUTPUT_ID_BASE, OUTPUT_NEURON_COUNT,
};
use vstd::prelude::*;
use vstd::seq_lib::{to_multiset_contains, to_multiset_len, to_multiset_remove};

verus! {

/// The readings of `sensors` as mathematical integers.
pub open spec fn readings(sensors: Seq<i32>) -> Seq<int> {
    Seq::new(sensors.len(), |i: int| sensors[i] as int)
}

/// Whether `sensors` holds one reading per sensor kind, each in `[-1.0, 1.0]`.
pub open spec fn sensors_ok(sensors: Seq<i32>) -> bool {
    &&& sensors.len() == INPUT_NEURON_COUNT
    &&& forall|i: int| 0 <= i < sensors.len() ==> in_signed_unit(#[trigger] sensors[i] as int)
}

/// The value that a gene starting at `id` reads: this tick's reading of a sensor, or
/// the earlier value of a hidden neuron.
pub open spec fn source_reading(sensors: Seq<int>, inner_values: Seq<int>, id: usize) -> int {
    if is_input_id(id) {
        sensors[id - INPUT_ID_BASE]
    } else {
        inner_values[id - INNER_ID_BASE]
    }
}

/// What `gene` adds to the accumulator of the neuron `sink`.
pub open spec fn contribution(
    gene: Gene,
    sink: int,
    sensors: Seq<int>,
    inner_values: Seq<int>,
) -> int {
    if gene.to == sink {
        gene.weight * source_reading(sensors, inner_values, gene.from)
    } else {
        0
    }
}

/// The sum of what the genes add to the accumulator of the neuron `sink`.
pub open spec fn weighted_input(
    genes: Seq<Gene>,
    sink: int,
    sensors: Seq<int>,
    inner_values: Seq<int>,
) -> int
    decreases genes.len(),
{
    if genes.len() == 0 {
        0
    } else {
        weighted_input(genes.drop_last(), sink, sensors, inner_values) + contribution(
            genes.last(),
            sink,
            sensors,
            inner_values,
        )
    }
}

/// The hidden neurons' values after an evaluation.
pub open spec fn next_inner_values(
    genes: Seq<Gene>,
    sensors: Seq<int>,
    inner_values: Seq<int>,
) -> Seq<int> {
    Seq::new(
        inner_values.len(),
        |k: int|
            activation(
                inner_values[k] * UNIT + weighted_input(
                    genes,
                    INNER_ID_BASE + k,
                    sensors,
                    inner_values,
                ),
            ),
    )
}

/// The actuators' activations after an evaluation.
pub open spec fn next_output_values(
    genes: Seq<Gene>,
    sensors: Seq<int>,
    inner_values: Seq<int>,
) -> Seq<int> {
    Seq::new(
        OUTPUT_NEURON_COUNT as nat,
        |k: int|
            activation(
                weighted_input(genes, output_base(inner_values.len()) + k, sensors, inner_values),
            ),
    )
}

/// Whether `after` is the network that evaluating `genes` on the readings `sensors`
/// makes of `before`.
pub open spec fn evaluated(
    before: NeuralNet,
    genes: Seq<Gene>,
    sensors: Seq<i32>,
    after: NeuralNet,
) -> bool {
    &&& after.wf()
    &&& after.inner_count() == before.inner_count()
    &&& after.input_values() == readings(sensors)
    &&& after.inner_values() == next_inner_values(
        genes,
        readings(sensors),
        before.inner_values(),
    )
    &&& after.output_values() == next_output_values(
        genes,
        readings(sensors),
        before.inner_values(),
    )
}

/// Whether `k` is the decision that the activations `outputs` give: the strongest
/// actuator, the first of them where several are equally strong, provided that it is
/// active at all.
pub open spec fn is_strongest(outputs: Seq<int>, k: int) -> bool {
    &&& 0 <= k < outputs.len()
    &&& outputs[k] > 0
    &&& forall|j: int| 0 <= j < outputs.len() ==> outputs[j] <= outputs[k]
    &&& forall|j: int| 0 <= j < k ==> outputs[j] < outputs[k]
}

/// Whether no actuator is active.
pub open spec fn all_idle(outputs: Seq<int>) -> bool {
    forall|j: int| 0 <= j < outputs.len() ==> outputs[j] <= 0
}

/// One more gene adds its contribution to every accumulator.
pub proof fn lemma_weighted_input_step(
    genes: Seq<Gene>,
    i: int,
    sink: int,
    sensors: Seq<int>,
    inner_values: Seq<int>,
)
    requires
        0 <= i < genes.len(),
    ensures
        weighted_input(genes.take(i + 1), sink, sensors, inner_values) == weighted_input(
            genes.take(i),
            sink,
            sensors,
            inner_values,
        ) + contribution(genes[i], sink, sensors, inner_values),
{
    assert(genes.take(i + 1).drop_last() =~= genes.take(i));
    assert(genes.take(i + 1).last() == genes[i]);
}

/// Taking one gene out takes its contribution out of every accumulator.
pub proof fn lemma_weighted_input_without(
    genes: Seq<Gene>,
    i: int,
    sink: int,
    sensors: Seq<int>,
    inner_values: Seq<int>,
)
    requires
        0 <= i < genes.len(),
    ensures
        weighted_input(genes, sink, sensors, inner_values) == weighted_input(
            genes.remove(i),
            sink,
            sensors,
            inner_values,
        ) + contribution(genes[i], sink, sensors, inner_values),
    decreases genes.len(),
{
    if i == genes.len() - 1 {
        assert(genes.remove(i) =~= genes.drop_last());
    } else {
        lemma_weighted_input_without(genes.drop_last(), i, sink, sensors, inner_values);
        assert(genes.remove(i).drop_last() =~= genes.drop_last().remove(i));
        assert(genes.remove(i).last() == genes.last());
    }
}

/// The order of the genes is irrelevant to evaluation: two gene sequences that hold
/// the same genes equally often feed every accumulator alike.
pub proof fn lemma_gene_order_is_irrelevant(
    a: Seq<Gene>,
    b: Seq<Gene>,
    sink: int,
    sensors: Seq<int>,
    inner_values: Seq<int>,
)
    requires
        a.to_multiset() == b.to_multiset(),
    ensures
        weighted_input(a, sink, sensors, inner_values) == weighted_input(
            b,
            sink,
            sensors,
            inner_values,
        ),
    decreases a.len(),
{
    to_multiset_len(a);
    to_multiset_len(b);
    if a.len() > 0 {
        let gene = a.last();
        to_multiset_contains(a, gene);
        to_multiset_contains(b, gene);
        assert(a[a.len() - 1] == gene);
        assert(a.contains(gene));
        let i = choose|i: int| 0 <= i < b.len() && b[i] == gene;
        to_multiset_remove(a, a.len() - 1);
        to_multiset_remove(b, i);
        assert(a.remove(a.len() - 1) =~= a.drop_last());
        lemma_gene_order_is_irrelevant(a.drop_last(), b.remove(i), sink, sensors, inner_values);
        lemma_weighted_input_without(b, i, sink, sensors, inner_values);
    }
}

/// A neuron at which no gene ends receives nothing.
pub proof fn lemma_unwired_sink_receives_nothing(
    genes: Seq<Gene>,
    sink: int,
    sensors: Seq<int>,
    inner_values: Seq<int>,
)
    requires
        forall|i: int| 0 <= i < genes.len() ==> (#[trigger] genes[i]).to != sink,
    ensures
        weighted_input(genes, sink, sensors, inner_values) == 0,
    decreases genes.len(),
{
    if genes.len() > 0 {
        lemma_unwired_sink_receives_nothing(genes.drop_last(), sink, sensors, inner_values);
    }
}

/// A genome without a gene that ends at an actuator leaves every actuator at zero, so
/// that the network decides nothing.
pub proof fn lemma_unwired_network_idles(
    genes: Seq<Gene>,
    sensors: Seq<int>,
    inner_values: Seq<int>,
)
    requires
        forall|i: int|
            0 <= i < genes.len() ==> !is_output_id(inner_values.len(), (#[trigger] genes[i]).to),
    ensures
        forall|k: int|
            0 <= k < OUTPUT_NEURON_COUNT ==> #[trigger] next_output_values(
                genes,
                sensors,
                inner_values,
            )[k] == 0,
        all_idle(next_output_values(genes, sensors, inner_values)),
{
    assert forall|k: int| 0 <= k < OUTPUT_NEURON_COUNT implies #[trigger] next_output_values(
        genes,
        sensors,
        inner_values,
    )[k] == 0 by {
        let sink = output_base(inner_values.len()) + k;
        assert forall|i: int| 0 <= i < genes.len() implies (#[trigger] genes[i]).to != sink by {
            assert(!is_output_id(inner_values.len(), genes[i].to));
        }
        lemma_unwired_sink_receives_nothing(genes, sink, sensors, inner_values);
    }
}

/// Evaluation is a function of the genome, the readings and the hidden neurons'
/// earlier values: two evaluations that agree on these agree on every value they
/// produce.
pub proof fn lemma_evaluation_deterministic(
    before_a: NeuralNet,
    before_b: NeuralNet,
    genes: Seq<Gene>,
    sensors: Seq<i32>,
    after_a: NeuralNet,
    after_b: NeuralNet,
)
    requires
        before_a.inner_values() == before_b.inner_values(),
        evaluated(before_a, genes, sensors, after_a),
        evaluated(before_b, genes, sensors, after_b),
    ensures
        after_a.output_values() == after_b.output_values(),
        after_a.inner_values() == after_b.inner_values(),
        after_a.input_values() == after_b.input_values(),
{
}

/// Whatever the genome and the accumulators it produces, every hidden neuron and every
/// actuator ends an evaluation within `[-1.0, 1.0]`.
pub proof fn lemma_evaluation_bounded(genes: Seq<Gene>, sensors: Seq<int>, inner_values: Seq<int>)
    ensures
        forall|k: int|
            0 <= k < inner_values.len() ==> in_signed_unit(
                #[trigger] next_inner_values(genes, sensors, inner_values)[k],
            ),
        forall|k: int|
            0 <= k < OUTPUT_NEURON_COUNT ==> in_signed_unit(
                #[trigger] next_output_values(genes, sensors, inner_values)[k],
            ),
{
}

impl NeuralNet {
    /// Evaluates the network for one tick: stores the readings, lets every gene of
    /// `genome` add to the accumulator of its sink, and activates the hidden neurons
    /// and the actuators.
    pub fn evaluate(&mut self, genome: &Genome, sensors: &Vec<i32>)
        requires
            old(self).wf(),
            genome.wf(old(self).inner_count()),
            sensors_ok(sensors@),
        ensures
            evaluated(*old(self), genome@, sensors@, *final(self)),
    {
        let ghost before = *self;
        let ghost earlier = self.inner_values();
        let ghost seen = readings(sensors@);
        let inner_total = self.inner_neurons.len();
        let base: usize = if inner_total <= 100 {
            OUTPUT_ID_BASE
        } else {
            INNER_ID_BASE + inner_total
        };

        let mut inner_sums: Vec<i128> = Vec::new();
        let mut k: usize = 0;
        while k < inner_total
            invariant
                *self == before,
                before.wf(),
                inner_total == before.inner_neurons@.len(),
                earlier == before.inner_values(),
                k <= inner_total,
                inner_sums@.len() == k,
                forall|j: int| 0 <= j < k ==> #[trigger] inner_sums@[j] == earlier[j] * UNIT,
            decreases inner_total - k,
        {
            let held: i32 = self.inner_neurons[k].value;
            assert(in_signed_unit(before.inner_neurons@[k as int].value as int));
            inner_sums.push((held as i128) * 1000);
            k += 1;
        }
        let mut output_sums: Vec<i128> = Vec::new();
        let mut k: usize = 0;
        while k < OUTPUT_NEURON_COUNT
            invariant
                k <= OUTPUT_NEURON_COUNT,
                output_sums@.len() == k,
                forall|j: int| 0 <= j < k ==> #[trigger] output_sums@[j] == 0,
            decreases OUTPUT_NEURON_COUNT - k,
        {
            output_sums.push(0);
            k += 1;
        }

        let mut i: usize = 0;
        while i < genome.genes.len()
            invariant
                *self == before,
                before.wf(),
                inner_total == before.inner_neurons@.len(),
                base == output_base(inner_total as nat),
                earlier == before.inner_values(),
                seen == readings(sensors@),
                sensors_ok(sensors@),
                genes_ok(genome@, inner_total as nat),
                i <= genome@.len(),
                inner_sums@.len() == inner_total,
                output_sums@.len() == OUTPUT_NEURON_COUNT,
                forall|j: int|
                    0 <= j < inner_total ==> #[trigger] inner_sums@[j] == earlier[j] * UNIT
                        + weighted_input(genome@.take(i as int), INNER_ID_BASE + j, seen, earlier),
                forall|j: int|
                    0 <= j < OUTPUT_NEURON_COUNT ==> #[trigger] output_sums@[j] == weighted_input(
                        genome@.take(i as int),
                        base + j,
                        seen,
                        earlier,
                    ),
                forall|j: int|
                    0 <= j < inner_total ==> -1_000_000 - 4_000_000 * i <= #[trigger] inner_sums@[j]
                        <= 1_000_000 + 4_000_000 * i,
                forall|j: int|
                    0 <= j < OUTPUT_NEURON_COUNT ==> -4_000_000 * i <= #[trigger] output_sums@[j]
                        <= 4_000_000 * i,
            decreases genome@.len() - i,
        {
            let gene = genome.genes[i];
            assert(gene_ok(genome@[i as int], inner_total as nat));
            let reading: i32 = if gene.from < INNER_ID_BASE {
                sensors[gene.from - INPUT_ID_BASE]
            } else {
                let held = self.inner_neurons[gene.from - INNER_ID_BASE].value;
                assert(in_signed_unit(
                    before.inner_neurons@[gene.from - INNER_ID_BASE].value as int,
                ));
                held
            };
            assert(reading == source_reading(seen, earlier, gene.from));
            let term: i128 = weighted(gene.weight, reading);
            let ghost inner_before = inner_sums@;
            let ghost output_before = output_sums@;
            if gene.to >= INNER_ID_BASE && gene.to - INNER_ID_BASE < inner_total {
                let slot = gene.to - INNER_ID_BASE;
                let sum = inner_sums[slot];
                inner_sums.set(slot, sum + term);
            } else {
                let slot = gene.to - base;
                let sum = output_sums[slot];
                output_sums.set(slot, sum + term);
            }
            proof {
                crate::neural_net::lemma_classes_disjoint(inner_total as nat, gene.to);
                assert forall|j: int| 0 <= j < inner_total implies #[trigger] inner_sums@[j]
                    == earlier[j] * UNIT + weighted_input(
                    genome@.take(i + 1),
                    INNER_ID_BASE + j,
                    seen,
                    earlier,
                ) by {
                    lemma_weighted_input_step(genome@, i as int, INNER_ID_BASE + j, seen, earlier);
                    assert(inner_before[j] == earlier[j] * UNIT + weighted_input(
                        genome@.take(i as int),
                        INNER_ID_BASE + j,
                        seen,
                        earlier,
                    ));
                }
                assert forall|j: int|
                    0 <= j < OUTPUT_NEURON_COUNT implies #[trigger] output_sums@[j]
                    == weighted_input(genome@.take(i + 1), base + j, seen, earlier) by {
                    lemma_weighted_input_step(genome@, i as int, base + j, seen, earlier);
                    assert(output_before[j] == weighted_input(
                        genome@.take(i as int),
                        base + j,
                        seen,
                        earlier,
                    ));
                }
                assert forall|j: int| 0 <= j < inner_total implies -1_000_000 - 4_000_000 * (i
                    + 1) <= #[trigger] inner_sums@[j] <= 1_000_000 + 4_000_000 * (i + 1) by {
                    assert(-1_000_000 - 4_000_000 * i <= inner_before[j] <= 1_000_000 + 4_000_000
                        * i);
                }
                assert forall|j: int|
                    0 <= j < OUTPUT_NEURON_COUNT implies -4_000_000 * (i + 1)
                    <= #[trigger] output_sums@[j] <= 4_000_000 * (i + 1) by {
                    assert(-4_000_000 * i <= output_before[j] <= 4_000_000 * i);
                }
            }
            i += 1;
        }
        assert(genome@.take(genome@.len() as int) =~= genome@);

        let mut k: usize = 0;
        while k < INPUT_NEURON_COUNT
            invariant
                k <= INPUT_NEURON_COUNT,
                sensors_ok(sensors@),
                before.wf(),
                self.inner_neurons == before.inner_neurons,
                self.output_neurons == before.output_neurons,
                self.input_neurons@.len() == INPUT_NEURON_COUNT,
                forall|j: int|
                    0 <= j < INPUT_NEURON_COUNT ==> (#[trigger] self.input_neurons@[j]).0
                        == before.input_neurons@[j].0 && self.input_neurons@[j].1.id
                        == before.input_neurons@[j].1.id,
                forall|j: int|
                    0 <= j < k ==> (#[trigger] self.input_neurons@[j]).1.value == sensors@[j],
            decreases INPUT_NEURON_COUNT - k,
        {
            self.input_neurons[k].1.value = sensors[k];
            k += 1;
        }

        let ghost loaded = self.input_neurons;
        let mut k: usize = 0;
        while k < inner_total
            invariant
                k <= inner_total,
                inner_total == before.inner_neurons@.len(),
                self.inner_neurons@.len() == inner_total,
                inner_sums@.len() == inner_total,
                forall|j: int|
                    0 <= j < inner_total ==> (#[trigger] self.inner_neurons@[j]).id
                        == before.inner_neurons@[j].id,
                forall|j: int|
                    0 <= j < k ==> (#[trigger] self.inner_neurons@[j]).value == activation(
                        inner_sums@[j] as int,
                    ),
                self.input_neurons == loaded,
                self.output_neurons == before.output_neurons,
            decreases inner_total - k,
        {
            self.inner_neurons[k].value = activate(inner_sums[k]);
            k += 1;
        }

        let ghost settled = self.inner_neurons;
        let mut k: usize = 0;
        while k < OUTPUT_NEURON_COUNT
            invariant
                k <= OUTPUT_NEURON_COUNT,
                before.wf(),
                self.input_neurons == loaded,
                self.inner_neurons == settled,
                self.output_neurons@.len() == OUTPUT_NEURON_COUNT,
                output_sums@.len() == OUTPUT_NEURON_COUNT,
                forall|j: int|
                    0 <= j < OUTPUT_NEURON_COUNT ==> (#[trigger] self.output_neurons@[j]).0
                        == before.output_neurons@[j].0 && self.output_neurons@[j].1.id
                        == before.output_neurons@[j].1.id,
                forall|j: int|
                    0 <= j < k ==> (#[trigger] self.output_neurons@[j]).1.value == activation(
                        output_sums@[j] as int,
                    ),
            decreases OUTPUT_NEURON_COUNT - k,
        {
            self.output_neurons[k].1.value = activate(output_sums[k]);
            k += 1;
        }

        proof {
            assert(self.input_values() =~= seen);
            assert(self.inner_values() =~= next_inner_values(genome@, seen, earlier));
            assert(self.output_values() =~= next_output_values(genome@, seen, earlier));
        }
    }

    /// The decision of the network: the kind of the strongest actuator, the first in
    /// catalog order among equally strong ones, or `None` where no actuator is active.
    pub fn decide(&self) -> (action: Option<OutputNeuronType>)
        requires
            self.wf(),
        ensures
            match action {
                Some(kind) => is_strongest(self.output_values(), kind.index()),
                None => all_idle(self.output_values()),
            },
    {
        let mut best: usize = 0;
        let mut k: usize = 1;
        while k < OUTPUT_NEURON_COUNT
            invariant
                self.wf(),
                1 <= k <= OUTPUT_NEURON_COUNT,
                best < k,
                forall|j: int|
                    0 <= j < k ==> (#[trigger] self.output_neurons@[j]).1.value
                        <= self.output_neurons@[best as int].1.value,
                forall|j: int|
                    0 <= j < best ==> (#[trigger] self.output_neurons@[j]).1.value
                        < self.output_neurons@[best as int].1.value,
            decreases OUTPUT_NEURON_COUNT - k,
        {
            if self.output_neurons[k].1.value > self.output_neurons[best].1.value {
                best = k;
            }
            k += 1;
        }
        if self.output_neurons[best].1.value > 0 {
            Some(self.output_neurons[best].0)
        } else {
            None
        }
    }
}

} // verus!
